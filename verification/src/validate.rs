//! The input rules of the administrative surface: what a broadcast request,
//! a backup request or a script-execution request must look like before any
//! work starts, and how schema and data file names are derived.

use vstd::prelude::*;

use crate::json::str_eq;
use crate::models::{ApiError, StartBackupPayload};

verus! {

/// ASCII whitespace: spaces, tabs and line breaks.
pub open spec fn is_space(c: char) -> bool {
    c == ' ' || c == '\t' || c == '\n' || c == '\r'
}

/// Whether a string holds nothing but whitespace.
pub open spec fn spec_blank(s: Seq<char>) -> bool {
    forall|i: int| 0 <= i < s.len() ==> is_space(#[trigger] s[i])
}

/// Whether a string holds nothing but whitespace, executably.
pub fn is_blank(s: &str) -> (r: bool)
    ensures
        r == spec_blank(s@),
{
    let len = s.unicode_len();
    let mut i: usize = 0;
    while i < len
        invariant
            i <= len,
            len == s@.len(),
            forall|j: int| 0 <= j < i ==> is_space(#[trigger] s@[j]),
        decreases len - i,
    {
        let c = s.get_char(i);
        if !(c == ' ' || c == '\t' || c == '\n' || c == '\r') {
            return false;
        }
        i = i + 1;
    }
    true
}

/// Whether two dots appear side by side anywhere: the path-traversal test.
pub open spec fn spec_has_dotdot(s: Seq<char>) -> bool {
    exists|i: int| 0 <= i < s.len() - 1 && (#[trigger] s[i]) == '.' && s[i + 1] == '.'
}

/// Finds a `..` pair, executably.
pub fn has_dotdot(s: &str) -> (r: bool)
    ensures
        r == spec_has_dotdot(s@),
{
    let len = s.unicode_len();
    if len < 2 {
        return false;
    }
    let mut i: usize = 0;
    while i < len - 1
        invariant
            len >= 2,
            i <= len - 1,
            len == s@.len(),
            forall|j: int| 0 <= j < i ==> !((#[trigger] s@[j]) == '.' && s@[j + 1] == '.'),
        decreases len - i,
    {
        if s.get_char(i) == '.' && s.get_char(i + 1) == '.' {
            return true;
        }
        i = i + 1;
    }
    false
}

/// Gate for an ad-hoc broadcast: the message must be non-empty and at most
/// 1024 characters, or the request is refused before anything is sent.
pub fn validate_broadcast_message(message: &str) -> (r: Result<(), ApiError>)
    ensures
        r is Ok <==> 1 <= message@.len() <= 1024,
        r matches Err(e) ==> e is WebSocketError,
{
    let len = message.unicode_len();
    if len == 0 {
        return Err(ApiError::WebSocketError(String::from_str("Message cannot be empty")));
    }
    if len > 1024 {
        return Err(
            ApiError::WebSocketError(
                String::from_str("Message too long (max 1024 characters)"),
            ),
        );
    }
    Ok(())
}

/// Gate for a realtime backup request: device, username and password must
/// each hold something besides whitespace.
pub fn validate_backup_payload(p: &StartBackupPayload) -> (r: Result<(), ApiError>)
    ensures
        r is Ok <==> !spec_blank(p.device_id@) && !spec_blank(p.username@) && !spec_blank(
            p.password@,
        ),
        r matches Err(e) ==> e is WebSocketError,
{
    if is_blank(p.device_id.as_str()) {
        return Err(ApiError::WebSocketError(String::from_str("Device ID cannot be empty")));
    }
    if is_blank(p.username.as_str()) {
        return Err(ApiError::WebSocketError(String::from_str("Username cannot be empty")));
    }
    if is_blank(p.password.as_str()) {
        return Err(ApiError::WebSocketError(String::from_str("Password cannot be empty")));
    }
    Ok(())
}

/// Gate for a script execution: the path must be non-empty and free of any
/// `..` component, so it can never leave the scripts directory.
pub fn validate_script_path(path: &str) -> (r: Result<(), ApiError>)
    ensures
        r is Ok <==> path@.len() >= 1 && !spec_has_dotdot(path@),
        r matches Err(e) ==> e is BadRequest,
{
    if path.unicode_len() == 0 {
        return Err(ApiError::BadRequest(String::from_str("Script path cannot be empty")));
    }
    if has_dotdot(path) {
        return Err(ApiError::BadRequest(String::from_str("Path traversal not allowed")));
    }
    Ok(())
}

/// The schema's name from a file stem: a trailing `.schema` marker is
/// dropped, anything else is taken whole.
pub open spec fn spec_schema_name(stem: Seq<char>) -> Seq<char> {
    if stem.len() >= 7 && stem.skip(stem.len() - 7) == seq!['.', 's', 'c', 'h', 'e', 'm', 'a'] {
        stem.take(stem.len() - 7)
    } else {
        stem
    }
}

/// Derives the schema name from a file stem, exactly [`spec_schema_name`].
pub fn schema_name_of_stem(stem: &str) -> (r: String)
    ensures
        r@ == spec_schema_name(stem@),
{
    let len = stem.unicode_len();
    proof {
        reveal_strlit(".schema");
        assert(".schema"@ =~= seq!['.', 's', 'c', 'h', 'e', 'm', 'a']);
    }
    if len >= 7 {
        let tail = stem.substring_char(len - 7, len);
        if str_eq(tail, ".schema") {
            let head = stem.substring_char(0, len - 7);
            proof {
                assert(stem@.subrange(len - 7, len as int) =~= stem@.skip(len - 7));
                assert(stem@.subrange(0, len - 7) =~= stem@.take(len - 7));
            }
            return head.to_owned();
        }
        proof {
            assert(stem@.subrange(len - 7, len as int) =~= stem@.skip(len - 7));
        }
    }
    stem.to_owned()
}

/// The data file a schema name resolves to: an explicit path is taken as
/// given, otherwise the schema's own name with a `.yaml` ending.
pub open spec fn spec_yaml_file(schema_name: Seq<char>, file_path: Option<Seq<char>>) -> Seq<
    char,
> {
    match file_path {
        Some(p) => p,
        None => schema_name + seq!['.', 'y', 'a', 'm', 'l'],
    }
}

/// Resolves the data file for a schema, exactly [`spec_yaml_file`].
pub fn resolve_yaml_file(schema_name: &str, file_path: Option<&str>) -> (r: String)
    ensures
        r@ == spec_yaml_file(
            schema_name@,
            match file_path {
                Some(p) => Some(p@),
                None => None,
            },
        ),
{
    match file_path {
        Some(p) => p.to_owned(),
        None => {
            let mut out = schema_name.to_owned();
            out.append(".yaml");
            proof {
                reveal_strlit(".yaml");
                assert(out@ =~= schema_name@ + seq!['.', 'y', 'a', 'm', 'l']);
            }
            out
        },
    }
}

/// Whether a file name ends in `.yaml` or `.yml`: what the inventory listing
/// counts as an inventory file.
pub open spec fn spec_is_yaml_name(s: Seq<char>) -> bool {
    (s.len() >= 5 && s.skip(s.len() - 5) == seq!['.', 'y', 'a', 'm', 'l']) || (s.len() >= 4
        && s.skip(s.len() - 4) == seq!['.', 'y', 'm', 'l'])
}

/// Tests a file name for a YAML ending, exactly [`spec_is_yaml_name`].
pub fn is_yaml_name(name: &str) -> (r: bool)
    ensures
        r == spec_is_yaml_name(name@),
{
    let len = name.unicode_len();
    proof {
        reveal_strlit(".yaml");
        reveal_strlit(".yml");
        assert(".yaml"@ =~= seq!['.', 'y', 'a', 'm', 'l']);
        assert(".yml"@ =~= seq!['.', 'y', 'm', 'l']);
    }
    if len >= 5 {
        let tail = name.substring_char(len - 5, len);
        if str_eq(tail, ".yaml") {
            proof {
                assert(name@.subrange(len - 5, len as int) =~= name@.skip(len - 5));
            }
            return true;
        }
        proof {
            assert(name@.subrange(len - 5, len as int) =~= name@.skip(len - 5));
        }
    }
    if len >= 4 {
        let tail = name.substring_char(len - 4, len);
        if str_eq(tail, ".yml") {
            proof {
                assert(name@.subrange(len - 4, len as int) =~= name@.skip(len - 4));
            }
            return true;
        }
        proof {
            assert(name@.subrange(len - 4, len as int) =~= name@.skip(len - 4));
        }
    }
    proof {
        if name@.len() >= 5 && name@.skip(name@.len() - 5) == seq!['.', 'y', 'a', 'm', 'l'] {
            assert(false);
        }
        if name@.len() >= 4 && name@.skip(name@.len() - 4) == seq!['.', 'y', 'm', 'l'] {
            assert(false);
        }
    }
    false
}

} // verus!
