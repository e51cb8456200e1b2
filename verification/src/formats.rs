//! The formats that a result comes in, and how each is stored and served.

use crate::http::{internal_error, HttpError, Status};
use crate::text::{decimal, decimal_text, is_text, joined};
use vstd::prelude::*;
use vstd::string::*;

verus! {

/// The content type of a result in the given format.
pub open spec fn content_type_of(format: Seq<char>) -> Seq<char> {
    if format == "json"@ {
        "application/json"@
    } else if format == "ndjson"@ {
        "application/x-ndjson"@
    } else {
        "application/octet-stream"@
    }
}

/// The content type of a result in the given format.
pub fn content_type(format: &str) -> (r: &'static str)
    ensures
        r@ == content_type_of(format@),
        format@ == "json"@ ==> r@ == "application/json"@,
        format@ == "ndjson"@ ==> r@ == "application/x-ndjson"@,
        format@ != "json"@ && format@ != "ndjson"@ ==> r@ == "application/octet-stream"@,
{
    proof {
        reveal_strlit("json");
        reveal_strlit("ndjson");
        assert("json"@.len() == 4 && "ndjson"@.len() == 6);
    }
    if is_text(format, "json") {
        "application/json"
    } else if is_text(format, "ndjson") {
        "application/x-ndjson"
    } else {
        "application/octet-stream"
    }
}

/// The file name extension of a result in the given format.
pub open spec fn extension_of(format: Seq<char>) -> Seq<char> {
    if format == "json"@ {
        "json"@
    } else if format == "ndjson"@ {
        "ndjson"@
    } else {
        "RoyaltyProData"@
    }
}

/// The file name extension of a result in the given format.
pub fn extension(format: &str) -> (r: &'static str)
    ensures
        r@ == extension_of(format@),
        format@ == "json"@ ==> r@ == "json"@,
        format@ == "ndjson"@ ==> r@ == "ndjson"@,
        format@ != "json"@ && format@ != "ndjson"@ ==> r@ == "RoyaltyProData"@,
{
    proof {
        reveal_strlit("json");
        reveal_strlit("ndjson");
        assert("json"@.len() == 4 && "ndjson"@.len() == 6);
    }
    if is_text(format, "json") {
        "json"
    } else if is_text(format, "ndjson") {
        "ndjson"
    } else {
        "RoyaltyProData"
    }
}

/// The name of the file that the result of a job goes to.
pub fn import_file_name(now_ms: u128, format: &str) -> (r: String)
    ensures
        r@ == "rp-import-"@ + decimal(now_ms as nat) + "."@ + extension_of(format@),
        format@ == "json"@ ==> r@ == "rp-import-"@ + decimal(now_ms as nat) + "."@ + "json"@,
        format@ == "ndjson"@ ==> r@ == "rp-import-"@ + decimal(now_ms as nat) + "."@ + "ndjson"@,
        format@ != "json"@ && format@ != "ndjson"@ ==> r@ == "rp-import-"@ + decimal(now_ms as nat)
            + "."@ + "RoyaltyProData"@,
{
    let stem = joined("rp-import-", decimal_text(now_ms).as_str());
    joined(joined(stem.as_str(), ".").as_str(), extension(format))
}

/// A result as it is served.
#[derive(Debug)]
pub struct BundleReply {
    pub content_type: &'static str,
    pub bytes: Vec<u8>,
}

/// Serves a result that was read, with the content type of its format, or says
/// why it could not be read.
pub fn bundle_reply(format: &str, read: Result<Vec<u8>, String>) -> (r: Result<
    BundleReply,
    HttpError,
>)
    ensures
        match read {
            Ok(bytes) => r matches Ok(reply) && reply.bytes@ == bytes@ && reply.content_type@
                == content_type_of(format@),
            Err(error) => r matches Err(e) && e@ == (
                Status::InternalServerError,
                "read bundle"@ + ": "@ + error@,
            ),
        },
        (r matches Ok(reply) ==> {
            &&& format@ == "json"@ ==> reply.content_type@ == "application/json"@
            &&& format@ == "ndjson"@ ==> reply.content_type@ == "application/x-ndjson"@
            &&& format@ != "json"@ && format@ != "ndjson"@ ==> reply.content_type@
                == "application/octet-stream"@
        }),
        (r matches Err(e) ==> e.status == Status::InternalServerError),
{
    match read {
        Ok(bytes) => Ok(BundleReply { content_type: content_type(format), bytes }),
        Err(error) => Err(internal_error("read bundle", error.as_str())),
    }
}

/// A result is served as plain JSON, as lines of JSON or as opaque bytes exactly
/// where it is stored under the extension that says so.
pub proof fn law_extension_and_content_type_agree(format: Seq<char>)
    ensures
        extension_of(format) == "json"@ <==> content_type_of(format) == "application/json"@,
        extension_of(format) == "ndjson"@ <==> content_type_of(format) == "application/x-ndjson"@,
        extension_of(format) == "RoyaltyProData"@ <==> content_type_of(format)
            == "application/octet-stream"@,
{
    reveal_strlit("json");
    reveal_strlit("ndjson");
    reveal_strlit("RoyaltyProData");
    reveal_strlit("application/json");
    reveal_strlit("application/x-ndjson");
    reveal_strlit("application/octet-stream");
    assert("json"@.len() == 4 && "ndjson"@.len() == 6 && "RoyaltyProData"@.len() == 14);
    assert("application/json"@.len() == 16 && "application/x-ndjson"@.len() == 20
        && "application/octet-stream"@.len() == 24);
}

/// Plain JSON is stored and served as JSON, lines of JSON as lines of JSON, and
/// every other format as a sealed bundle of opaque bytes.
pub proof fn law_every_format_has_its_kind(format: Seq<char>)
    ensures
        format == "json"@ ==> extension_of(format) == "json"@ && content_type_of(format)
            == "application/json"@,
        format == "ndjson"@ ==> extension_of(format) == "ndjson"@ && content_type_of(format)
            == "application/x-ndjson"@,
        format != "json"@ && format != "ndjson"@ ==> extension_of(format) == "RoyaltyProData"@
            && content_type_of(format) == "application/octet-stream"@,
{
    reveal_strlit("json");
    reveal_strlit("ndjson");
    assert("json"@.len() == 4 && "ndjson"@.len() == 6);
}

} // verus!
