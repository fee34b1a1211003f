//! The metrics endpoint's requests and replies.

use vstd::prelude::*;

use crate::text;
use crate::text::{decimal_text, joined, joined3};

verus! {

/// `GET /metrics `
pub open spec fn metrics_request() -> Seq<u8> {
    seq![0x47u8, 0x45, 0x54, 0x20, 0x2f, 0x6d, 0x65, 0x74, 0x72, 0x69, 0x63, 0x73, 0x20]
}

/// Whether a request asks for the metrics.
pub open spec fn asks_for_metrics(request: Seq<u8>) -> bool {
    metrics_request().is_prefix_of(request)
}

/// Whether a request asks for the metrics.
pub fn is_metrics_request(request: &Vec<u8>) -> (result: bool)
    ensures
        result == asks_for_metrics(request@),
{
    let wanted: Vec<u8> = vec![
        0x47,
        0x45,
        0x54,
        0x20,
        0x2f,
        0x6d,
        0x65,
        0x74,
        0x72,
        0x69,
        0x63,
        0x73,
        0x20,
    ];
    assert(wanted@ =~= metrics_request());
    let len: usize = wanted.len();
    if request.len() < len {
        return false;
    }
    let mut i: usize = 0;
    while i < len
        invariant
            i <= len <= request@.len(),
            len == wanted@.len(),
            wanted@ == metrics_request(),
            wanted@.take(i as int) == request@.take(i as int),
        decreases len - i,
    {
        if wanted[i] != request[i] {
            proof {
                if asks_for_metrics(request@) {
                    assert(metrics_request() =~= request@.subrange(
                        0,
                        metrics_request().len() as int,
                    ));
                    assert(request@.subrange(0, len as int)[i as int] == request@[i as int]);
                }
            }
            return false;
        }
        i = i + 1;
        assert(wanted@.take(i as int) =~= wanted@.take(i - 1).push(wanted@[i - 1]));
        assert(request@.take(i as int) =~= request@.take(i - 1).push(request@[i - 1]));
    }
    assert(wanted@.take(i as int) =~= wanted@);
    assert(request@.take(i as int) =~= request@.subrange(0, len as int));
    true
}

/// The head of a reply: its status, and the type and length of its body.
pub open spec fn reply_head(status: Seq<char>, content_type: Seq<char>, len: int) -> Seq<char> {
    "HTTP/1.1 "@ + status + "\r\nContent-Type: "@ + content_type + "\r\nContent-Length: "@
        + text::decimal(len) + "\r\nConnection: close\r\n\r\n"@
}

/// The head of a reply.
pub fn write_reply_head(status: &str, content_type: &str, len: u64) -> (head: String)
    ensures
        head@ == reply_head(status@, content_type@, len as int),
{
    let first: String = joined3("HTTP/1.1 ", status, "\r\nContent-Type: ");
    let second: String = joined3(first.as_str(), content_type, "\r\nContent-Length: ");
    let third: String = joined(second.as_str(), decimal_text(len).as_str());
    joined(third.as_str(), "\r\nConnection: close\r\n\r\n")
}

} // verus!
