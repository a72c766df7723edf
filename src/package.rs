//! Reading a package manifest (`package.json`): its name, version and the
//! names it depends on. The JSON itself is parsed by serde_json.

use vstd::prelude::*;
use vstd::string::*;
use crate::error::SpineError;
use crate::config::strings_view;
use crate::text::{concat, owned, push_char};

verus! {

#[verifier::external_type_specification]
#[verifier::external_body]
pub struct ExJsonError(serde_json::Error);

/// Whether serde_json accepts `text` as a JSON document.
pub uninterp spec fn json_parses(text: Seq<char>) -> bool;

/// The string found in the JSON document `text` at JSON pointer `pointer`,
/// if the value there is a string.
pub uninterp spec fn json_str_at(text: Seq<char>, pointer: Seq<char>) -> Option<Seq<char>>;

/// The non-negative integer found in `text` at JSON pointer `pointer`, if
/// the value there is one that fits in 64 bits.
pub uninterp spec fn json_u64_at(text: Seq<char>, pointer: Seq<char>) -> Option<u64>;

/// The member names of the object found in `text` at JSON pointer
/// `pointer`, if the value there is an object.
pub uninterp spec fn json_keys_at(text: Seq<char>, pointer: Seq<char>) -> Option<Seq<Seq<char>>>;

/// Relies on serde_json::from_str (into a `Value`), then Value::pointer and
/// Value::as_str: the string at `pointer` in the document `text`. Whether
/// parsing succeeds, and what is found, depend on the two texts alone.
#[verifier::external_body]
fn text_str_at(text: &str, pointer: &str) -> (r: Result<Option<String>, serde_json::Error>)
    ensures
        r is Ok <==> json_parses(text@),
        r matches Ok(o) ==> crate::config::opt_view(o) == json_str_at(text@, pointer@),
{
    let v: serde_json::Value = serde_json::from_str(text)?;
    Ok(v.pointer(pointer).and_then(|m| m.as_str()).map(|s| s.to_string()))
}

/// Relies on serde_json::from_str (into a `Value`), then Value::pointer and
/// Value::as_u64: the integer at `pointer` in the document `text`.
#[verifier::external_body]
fn text_u64_at(text: &str, pointer: &str) -> (r: Result<Option<u64>, serde_json::Error>)
    ensures
        r is Ok <==> json_parses(text@),
        r matches Ok(o) ==> o == json_u64_at(text@, pointer@),
{
    let v: serde_json::Value = serde_json::from_str(text)?;
    Ok(v.pointer(pointer).and_then(|m| m.as_u64()))
}

/// Relies on serde_json::from_str (into a `Value`), then Value::pointer,
/// Value::as_object and Map::keys: the member names of the object at
/// `pointer` in the document `text`.
#[verifier::external_body]
fn text_keys_at(text: &str, pointer: &str) -> (r: Result<Option<Vec<String>>, serde_json::Error>)
    ensures
        r is Ok <==> json_parses(text@),
        r matches Ok(o) ==> match o {
            Some(v) => json_keys_at(text@, pointer@) == Some(strings_view(v@)),
            None => json_keys_at(text@, pointer@) is None,
        },
{
    let v: serde_json::Value = serde_json::from_str(text)?;
    Ok(v.pointer(pointer).and_then(|m| m.as_object()).map(|m| m.keys().cloned().collect()))
}

/// Relies on serde_json::Error's Display: the parser's message.
#[verifier::external_body]
fn json_error_text(e: &serde_json::Error) -> String {
    e.to_string()
}

/// `s` as one JSON pointer token: `~` written `~0` and `/` written `~1`.
pub open spec fn pointer_token(s: Seq<char>) -> Seq<char>
    decreases s.len(),
{
    if s.len() == 0 {
        s
    } else {
        pointer_token(s.drop_last()) + if s.last() == '~' {
            "~0"@
        } else if s.last() == '/' {
            "~1"@
        } else {
            seq![s.last()]
        }
    }
}

/// `s` as one JSON pointer token.
pub fn escape_pointer_token(s: &str) -> (r: String)
    ensures
        r@ == pointer_token(s@),
{
    let n = s.unicode_len();
    let mut r = String::new();
    let mut i: usize = 0;
    while i < n
        invariant
            n == s@.len(),
            i <= n,
            r@ == pointer_token(s@.take(i as int)),
        decreases n - i,
    {
        let c = s.get_char(i);
        assert(s@.take(i + 1).drop_last() =~= s@.take(i as int));
        if c == '~' {
            r.append("~0");
        } else if c == '/' {
            r.append("~1");
        } else {
            push_char(&mut r, c);
        }
        assert(r@ =~= pointer_token(s@.take(i + 1)));
        i = i + 1;
    }
    assert(s@.take(n as int) =~= s@);
    r
}

/// The string member at `pointer`: a parse error when the text is not JSON,
/// a `PackageJson` error with message `missing` when there is no string there.
pub open spec fn member_result(text: Seq<char>, pointer: Seq<char>, r: Result<String, SpineError>, missing: Seq<char>) -> bool {
    if !json_parses(text) {
        r matches Err(SpineError::JsonParsing(_))
    } else {
        match json_str_at(text, pointer) {
            Some(v) => r matches Ok(x) && x@ == v,
            None => r matches Err(SpineError::PackageJson(m)) && m@ == missing,
        }
    }
}

fn required_member(text: &str, pointer: &str, missing: &str) -> (r: Result<String, SpineError>)
    ensures
        member_result(text@, pointer@, r, missing@),
{
    match text_str_at(text, pointer) {
        Err(e) => Err(SpineError::JsonParsing(json_error_text(&e))),
        Ok(Some(v)) => Ok(v),
        Ok(None) => Err(SpineError::PackageJson(owned(missing))),
    }
}

/// What a manifest says of a package.
#[derive(Clone, Debug)]
pub struct PackageInfo {
    pub name: String,
    pub version: String,
    pub dependencies: Vec<String>,
    pub dev_dependencies: Vec<String>,
}

/// The `name` of the manifest `manifest`.
pub fn get_package_name(manifest: &str) -> (r: Result<String, SpineError>)
    ensures
        member_result(manifest@, "/name"@, r, "No name field found"@),
{
    required_member(manifest, "/name", "No name field found")
}

/// The `version` of the manifest `manifest`.
pub fn get_package_version(manifest: &str) -> (r: Result<String, SpineError>)
    ensures
        member_result(manifest@, "/version"@, r, "No version field found"@),
{
    required_member(manifest, "/version", "No version field found")
}

/// The version to store when registering a package whose manifest is
/// `manifest` (`None` when there is none): its `version` string, or none
/// when the manifest is absent, is not JSON or has no such string.
pub fn version_for_registration(manifest: Option<&str>) -> (r: Option<String>)
    ensures
        match manifest {
            None => r is None,
            Some(t) => if json_parses(t@) {
                crate::config::opt_view(r) == json_str_at(t@, "/version"@)
            } else {
                r is None
            },
        },
{
    match manifest {
        None => None,
        Some(t) => match text_str_at(t, "/version") {
            Ok(v) => v,
            Err(_) => None,
        },
    }
}

/// The member names of the object at `pointer`, or none.
pub open spec fn keys_or_empty(text: Seq<char>, pointer: Seq<char>) -> Seq<Seq<char>> {
    match json_keys_at(text, pointer) {
        Some(k) => k,
        None => Seq::empty(),
    }
}

/// The names listed under the object at `pointer`, or none.
fn extract_dependencies(manifest: &str, pointer: &str) -> (r: Vec<String>)
    requires
        json_parses(manifest@),
    ensures
        strings_view(r@) == keys_or_empty(manifest@, pointer@),
{
    match text_keys_at(manifest, pointer) {
        Ok(Some(v)) => v,
        _ => Vec::new(),
    }
}

/// The name to register a package under: the one given, else the one its
/// manifest (`manifest`, `None` when absent) declares.
pub fn detect_package_name(package: Option<String>, shown_path: &str, manifest: Option<&str>) -> (r: Result<
    String,
    SpineError,
>)
    ensures
        package matches Some(p) ==> r == Ok::<String, SpineError>(p),
        package is None && manifest is None ==> (r matches Err(SpineError::Config(m)) && m@
            == "No package.json found in "@ + shown_path@
            + ". Please provide package name explicitly or ensure you're in a package directory."@),
        package is None ==> match manifest {
            Some(t) => if json_parses(t@) && json_str_at(t@, "/name"@) is Some {
                r matches Ok(x) && Some(x@) == json_str_at(t@, "/name"@)
            } else {
                r matches Err(SpineError::Config(m)) && m@
                    == "Could not detect package name from package.json. Please provide package name explicitly."@
            },
            None => true,
        },
{
    match package {
        Some(p) => Ok(p),
        None => match manifest {
            None => {
                let m = crate::text::concat("No package.json found in ", shown_path);
                Err(
                    SpineError::Config(
                        crate::text::concat(
                            m.as_str(),
                            ". Please provide package name explicitly or ensure you're in a package directory.",
                        ),
                    ),
                )
            },
            Some(text) => match get_package_name(text) {
                Ok(n) => Ok(n),
                Err(_) => Err(
                    SpineError::Config(
                        owned(
                            "Could not detect package name from package.json. Please provide package name explicitly.",
                        ),
                    ),
                ),
            },
        },
    }
}

/// The `@angular/core` requirement among the manifest's peer dependencies.
pub fn angular_core_peer_version(manifest: &str) -> (r: Option<String>)
    ensures
        json_parses(manifest@) ==> crate::config::opt_view(r) == json_str_at(
            manifest@,
            "/peerDependencies/@angular~1core"@,
        ),
        !json_parses(manifest@) ==> r is None,
{
    match text_str_at(manifest, "/peerDependencies/@angular~1core") {
        Ok(v) => v,
        Err(_) => None,
    }
}

/// The pointer to `tail` below the serve target of project `app`.
pub open spec fn serve_pointer(app: Seq<char>, tail: Seq<char>) -> Seq<char> {
    "/projects/"@ + pointer_token(app) + "/architect/serve/"@ + tail
}

/// A 16-bit port out of an integer, if it fits.
pub open spec fn as_port(n: Option<u64>) -> Option<u16> {
    match n {
        Some(p) => if p <= 65535 {
            Some(p as u16)
        } else {
            None
        },
        None => None,
    }
}

fn port_at(text: &str, pointer: &str) -> (r: Option<u16>)
    ensures
        json_parses(text@) ==> r == as_port(json_u64_at(text@, pointer@)),
        !json_parses(text@) ==> r is None,
{
    match text_u64_at(text, pointer) {
        Ok(Some(n)) => if n <= 65535 {
            Some(n as u16)
        } else {
            None
        },
        _ => None,
    }
}

/// The port `angular.json` (the text `angular_json`) sets for serving
/// `app_project`: its serve options first, then its development serve
/// configuration; none when neither gives a port that fits in 16 bits.
pub fn get_configured_port(angular_json: &str, app_project: &str) -> (r: Option<u16>)
    ensures
        !json_parses(angular_json@) ==> r is None,
        json_parses(angular_json@) ==> r == match as_port(
            json_u64_at(angular_json@, serve_pointer(app_project@, "options/port"@)),
        ) {
            Some(p) => Some(p),
            None => as_port(
                json_u64_at(angular_json@, serve_pointer(app_project@, "configurations/development/port"@)),
            ),
        },
{
    let app = escape_pointer_token(app_project);
    let base = concat("/projects/", app.as_str());
    let base = concat(base.as_str(), "/architect/serve/");
    let options = concat(base.as_str(), "options/port");
    match port_at(angular_json, options.as_str()) {
        Some(p) => Some(p),
        None => {
            let dev = concat(base.as_str(), "configurations/development/port");
            port_at(angular_json, dev.as_str())
        },
    }
}

/// The manifest has a string `name` and a string `version`.
pub open spec fn manifest_complete(text: Seq<char>) -> bool {
    json_parses(text) && json_str_at(text, "/name"@) is Some && json_str_at(text, "/version"@) is Some
}

/// Name, version and dependency names of the manifest `manifest`; the name
/// and the version must both be there.
pub fn parse_package_json(manifest: &str) -> (r: Result<PackageInfo, SpineError>)
    ensures
        !json_parses(manifest@) ==> r matches Err(SpineError::JsonParsing(_)),
        json_parses(manifest@) && json_str_at(manifest@, "/name"@) is None ==> (r matches Err(
            SpineError::PackageJson(m),
        ) && m@ == "No name field found"@),
        json_parses(manifest@) && json_str_at(manifest@, "/name"@) is Some && json_str_at(
            manifest@,
            "/version"@,
        ) is None ==> (r matches Err(SpineError::PackageJson(m)) && m@ == "No version field found"@),
        manifest_complete(manifest@) ==> (r matches Ok(info) && Some(info.name@) == json_str_at(
            manifest@,
            "/name"@,
        ) && Some(info.version@) == json_str_at(manifest@, "/version"@) && strings_view(
            info.dependencies@,
        ) == keys_or_empty(manifest@, "/dependencies"@) && strings_view(info.dev_dependencies@)
            == keys_or_empty(manifest@, "/devDependencies"@)),
{
    let name = required_member(manifest, "/name", "No name field found")?;
    let version = required_member(manifest, "/version", "No version field found")?;
    let dependencies = extract_dependencies(manifest, "/dependencies");
    let dev_dependencies = extract_dependencies(manifest, "/devDependencies");
    Ok(PackageInfo { name, version, dependencies, dev_dependencies })
}

/// Whether a directory holds a usable package: it exists, has a manifest
/// (`manifest` is its text, `None` when there is none) and the manifest
/// gives a name and a version. A manifest that does not parse is an error.
pub fn validate_package_path(path_exists: bool, manifest: Option<&str>) -> (r: Result<bool, SpineError>)
    ensures
        !path_exists ==> r == Ok::<bool, SpineError>(false),
        path_exists && manifest is None ==> r == Ok::<bool, SpineError>(false),
        path_exists ==> match manifest {
            Some(t) => if manifest_complete(t@) {
                r == Ok::<bool, SpineError>(true)
            } else if json_parses(t@) {
                r matches Err(SpineError::PackageJson(_))
            } else {
                r matches Err(SpineError::JsonParsing(_))
            },
            None => true,
        },
{
    if !path_exists {
        return Ok(false);
    }
    match manifest {
        None => Ok(false),
        Some(text) => match parse_package_json(text) {
            Ok(_) => Ok(true),
            Err(e) => Err(e),
        },
    }
}

} // verus!
