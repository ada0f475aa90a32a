//! The files a new project starts with, and the rendering of response bodies.

use vstd::prelude::*;
use vstd::string::*;
use rustache::HashBuilder;

verus! {

/// The configuration file of a new project: one request answered with a JSON
/// response, and the assets served as static files.
pub const BARE_CONFIG_TOML: &'static str = "[server]
port = 4000
host = \"localhost\"

[requests.example_request]
method = \"GET\"
path = \"/\"
[[requests.example_request.responses]]
status = 200
headers = [
\t\"Content-Type: application/json\"
]
response = \"responses/haxonite.json\"

[requests.assets_request]
type = \"static\"
path = \"/public\"
[[requests.assets_request.responses]]
response = \"assets\"
";

/// The configuration file of a new full project: besides the requests of the
/// bare one, a random request and a round-robin request over the example
/// responses.
pub const FULL_CONFIG_TOML: &'static str = "[server]
port = 4000
host = \"localhost\"

[requests.example_request]
method = \"GET\"
path = \"/\"
[[requests.example_request.responses]]
status = 200
headers = [
\t\"Content-Type: application/json\"
]
response = \"responses/haxonite.json\"

[requests.some_random_resources]
type = \"random\"
method = \"GET\"
path = \"/api/v1/random_resources\"
[[requests.some_random_resources.responses]]
status = 200
headers = [
\t\"Content-Type: application/json\"
]
response = \"responses/resources.json\"
weight = 95
[[requests.some_random_resources.responses]]
status = 500
headers = [
\t\"Content-Type: application/json\"
]
response = \"responses/error.500.json\"
weight = 5

[requests.show]
type = \"roundrobin\"
method = \"GET\"
path = \"/api/v1/resources/:id\"
[[requests.show.responses]]
status = 200
headers = [
\t\"Content-Type: application/json\"
]
response = \"responses/resource.json\"
[[requests.show.responses]]
status = 404
headers = [
\t\"Content-Type: application/json\"
]
response = \"responses/error.404.json\"

[requests.assets_request]
type = \"static\"
path = \"/public\"
[[requests.assets_request.responses]]
response = \"assets\"
";

/// The bytes of the configuration file of a new project: the full one when
/// `generate_full_project` is set, the bare one otherwise.
pub fn config_toml_content(generate_full_project: bool) -> (r: &'static [u8])
    ensures
        r@ == (if generate_full_project {
            FULL_CONFIG_TOML
        } else {
            BARE_CONFIG_TOML
        }).spec_bytes(),
{
    if generate_full_project {
        FULL_CONFIG_TOML.as_bytes()
    } else {
        BARE_CONFIG_TOML.as_bytes()
    }
}

/// The version that response templates can show.
pub const VERSION: &'static str = "0.1.0";

/// The authors that response templates can show.
pub const AUTHORS: &'static str = "Jakub Matraszek <jakub.matraszek@gmail.com>";

/// Rustache's template data: a map from keys to values.
#[verifier::external_type_specification]
#[verifier::external_body]
pub struct ExHashBuilder<'a>(HashBuilder<'a>);

/// The data that response templates are rendered with.
pub type TemplateData = HashBuilder<'static>;

/// The text values that a `rustache::HashBuilder` holds, by key.
pub uninterp spec fn builder_entries(builder: TemplateData) -> Map<Seq<char>, Seq<char>>;

/// No template data.
pub open spec fn no_entries() -> Map<Seq<char>, Seq<char>> {
    Map::empty()
}

/// `rustache::HashBuilder::new`: an empty builder.
#[verifier::external_body]
fn builder_new() -> (b: TemplateData)
    ensures
        builder_entries(b) == no_entries(),
{
    rustache::HashBuilder::new()
}

/// `rustache::HashBuilder::insert` with a text value: the builder's map gets
/// the key with that value, replacing an earlier value of the key.
#[verifier::external_body]
fn builder_insert(builder: TemplateData, key: String, value: String) -> (r: TemplateData)
    ensures
        builder_entries(r) == builder_entries(builder).insert(key@, value@),
{
    builder.insert(key, value)
}

/// Whether a tag opener `{{` starts at byte `p` of `b`.
pub open spec fn opens_at(b: Seq<u8>, p: int) -> bool {
    0 <= p && p + 1 < b.len() && b[p] == 123 && b[p + 1] == 123
}

/// Whether a tag closer `}}` starts at byte `q` of `b`.
pub open spec fn closes_at(b: Seq<u8>, q: int) -> bool {
    0 <= q && q + 1 < b.len() && b[q] == 125 && b[q + 1] == 125
}

/// What may follow a tag opener at `p`: the inside of a tag starts with an
/// ASCII character, is not empty, is neither a comment (`!`) nor a partial
/// (`>`), and a triple-brace tag has something between its braces.
pub open spec fn opener_ok(b: Seq<u8>, p: int) -> bool {
    p + 2 >= b.len() || {
        &&& b[p + 2] < 128
        &&& b[p + 2] != 33
        &&& b[p + 2] != 62
        &&& !closes_at(b, p + 2)
        &&& (b[p + 2] == 123 ==> !closes_at(b, p + 3))
    }
}

/// What may precede a tag closer at `q`: an ASCII character, or nothing.
pub open spec fn closer_ok(b: Seq<u8>, q: int) -> bool {
    q == 0 || b[q - 1] < 128
}

/// Whether rustache renders the template with the bytes `b` from the given
/// data alone, without failing: every tag opener and closer is as above. A
/// template outside these bounds makes rustache panic (an empty tag, a tag
/// that starts or, inside triple braces, ends within a multi-byte character,
/// a comment that no text precedes), or makes it read a partial file from disk.
pub open spec fn renders_in_memory(b: Seq<u8>) -> bool {
    &&& forall|p: int| opens_at(b, p) ==> opener_ok(b, p)
    &&& forall|q: int| closes_at(b, q) ==> closer_ok(b, q)
}

/// A template without any `{{` or `}}` renders from the data alone.
pub proof fn lemma_template_without_braces_renders(b: Seq<u8>)
    requires
        forall|p: int|
            0 <= p < b.len() - 1 ==> !(#[trigger] b[p] == 123 && b[p + 1] == 123) && !(b[p] == 125
                && b[p + 1] == 125),
    ensures
        renders_in_memory(b),
{
}

/// A template with a comment `{{!`, a partial `{{>`, an empty tag `{{}}`, or
/// a tag whose inside starts with a byte outside ASCII does not render from
/// the data alone.
pub proof fn lemma_template_with_refused_tag_does_not_render(b: Seq<u8>, p: int)
    requires
        0 <= p,
        p + 2 < b.len(),
        b[p] == 123,
        b[p + 1] == 123,
        b[p + 2] == 33 || b[p + 2] == 62 || b[p + 2] >= 128 || (p + 3 < b.len() && b[p + 2] == 125
            && b[p + 3] == 125),
    ensures
        !renders_in_memory(b),
{
    assert(opens_at(b, p) && !opener_ok(b, p));
}

/// Whether the template renders from the given data alone, without failing.
pub fn template_renders_in_memory(template: &str) -> (r: bool)
    ensures
        r == renders_in_memory(template.spec_bytes()),
{
    let b = template.as_bytes();
    let n = b.len();
    let mut i: usize = 0;
    while i < n
        invariant
            n == b@.len(),
            b@ == template.spec_bytes(),
            i <= n,
            forall|p: int| 0 <= p < i && opens_at(b@, p) ==> opener_ok(b@, p),
            forall|q: int| 0 <= q < i && closes_at(b@, q) ==> closer_ok(b@, q),
        decreases n - i,
    {
        if i + 1 < n && b[i] == 123 && b[i + 1] == 123 && i + 2 < n {
            let c = b[i + 2];
            let empty = i + 3 < n && c == 125 && b[i + 3] == 125;
            let bare_triple = c == 123 && n - i > 4 && b[i + 3] == 125 && b[i + 4] == 125;
            if c >= 128 || c == 33 || c == 62 || empty || bare_triple {
                assert(opens_at(b@, i as int) && !opener_ok(b@, i as int));
                return false;
            }
        }
        if i + 1 < n && b[i] == 125 && b[i + 1] == 125 && i > 0 && b[i - 1] >= 128 {
            assert(closes_at(b@, i as int) && !closer_ok(b@, i as int));
            return false;
        }
        i = i + 1;
    }
    true
}

/// What `rustache::Render::render` writes for the template `template` with
/// data holding `entries`, read as UTF-8; none when rendering fails or the
/// output is not UTF-8. It stands only for templates that render from the
/// data alone (`renders_in_memory`).
pub uninterp spec fn rendered(template: Seq<char>, entries: Map<Seq<char>, Seq<char>>) -> Option<Seq<char>>;

/// Renders `template` with `rustache::Render::render` into a buffer and reads
/// it with `String::from_utf8`. Only templates that render from the data alone
/// are accepted: rustache panics on the others or reads partial files from
/// disk. The contract only names the result (`rendered`); the template
/// language is not stated.
#[verifier::external_body]
fn render(builder: &TemplateData, template: &str) -> (r: Option<String>)
    requires
        renders_in_memory(template.spec_bytes()),
    ensures
        r.deep_view() == rendered(template@, builder_entries(*builder)),
{
    let mut out: Vec<u8> = Vec::new();
    match rustache::Render::render(builder, template, &mut out) {
        Ok(()) => String::from_utf8(out).ok(),
        Err(_) => None,
    }
}

/// The data a response template is rendered with: the version and the authors.
pub open spec fn template_data() -> Map<Seq<char>, Seq<char>> {
    no_entries().insert("haxonite_version"@, VERSION@).insert(
        "haxonite_authors"@,
        AUTHORS@,
    )
}

/// The body of a response whose template file holds `template`, when the
/// template renders from the data alone: the template rendered with the
/// version and the authors, or the empty text when rendering fails. None for
/// any other template: one with a partial, whose body depends on files on
/// disk, or one with a tag that rustache may fail on; which of the two holds,
/// and what rustache then gives, is left to the caller.
pub fn render_response_body(template: &str) -> (body: Option<String>)
    ensures
        body is Some <==> renders_in_memory(template.spec_bytes()),
        body matches Some(b) ==> b@ == (match rendered(template@, template_data()) {
            Some(r) => r,
            None => Seq::<char>::empty(),
        }),
{
    if !template_renders_in_memory(template) {
        return None;
    }
    let builder = builder_new();
    let builder = builder_insert(builder, "haxonite_version".to_owned(), VERSION.to_owned());
    let builder = builder_insert(builder, "haxonite_authors".to_owned(), AUTHORS.to_owned());
    match render(&builder, template) {
        Some(body) => Some(body),
        None => Some(String::new()),
    }
}

} // verus!
