//! Repository fingerprints: languages by file extension, frameworks by marker files and
//! manifest dependencies, and the README summary with its content hash.
use vstd::prelude::*;
use sha2::Digest;
use crate::json::hex_lower;
use crate::paths::{extension, path_extension};
use crate::models::Repo;
use crate::scanner::WalkEntry;
use crate::manifest::{
    json_as_object, json_document, json_get, json_has_key, json_member, json_object, json_object_keys,
    json_parse, toml_as_table, toml_document, toml_get, toml_has_key, toml_member, toml_parse,
    toml_table, toml_table_keys,
};
use crate::text::{
    ascii_lower, chars_of, contains_ignoring_case, copy_string, law_sorted_list_determined_by_members,
    lines_of, occurs_in, push_char, push_str, same_members, sorted_unique, str_eq, string_from_range,
    strictly_sorted, text_lines, trim, views,
};

verus! {

/// The SHA-256 digest of a byte string.
pub uninterp spec fn sha256(data: Seq<u8>) -> Seq<u8>;

/// `sha2::Sha256::digest`. Trusted: the 32-byte SHA-256 digest, named by `sha256`.
#[verifier::external_body]
fn sha256_digest(data: &[u8]) -> (r: Vec<u8>)
    ensures
        r@ == sha256(data@),
        r@.len() == 32,
{
    sha2::Sha256::digest(data).to_vec()
}

/// Lower-case hex, two digits per byte.
pub open spec fn hex_text(b: Seq<u8>) -> Seq<char>
    decreases b.len(),
{
    if b.len() == 0 {
        Seq::empty()
    } else {
        hex_text(b.drop_last()) + seq![hex_lower((b.last() / 16) as nat), hex_lower((b.last() % 16) as nat)]
    }
}

proof fn lemma_hex_text_len(b: Seq<u8>)
    ensures
        hex_text(b).len() == 2 * b.len(),
    decreases b.len(),
{
    if b.len() > 0 {
        lemma_hex_text_len(b.drop_last());
    }
}

fn hex_digit(d: u8) -> (c: char)
    requires
        d < 16,
    ensures
        c == hex_lower(d as nat),
{
    if d < 10 {
        (d + 48) as char
    } else {
        (d + 87) as char
    }
}

/// Lower-case hex text of a byte string.
pub fn to_hex_lower(b: &[u8]) -> (r: String)
    ensures
        r@ == hex_text(b@),
        r@.len() == 2 * b@.len(),
{
    let mut r = String::new();
    let mut i: usize = 0;
    while i < b.len()
        invariant
            i <= b@.len(),
            r@ == hex_text(b@.take(i as int)),
        decreases b@.len() - i,
    {
        assert(b@.take(i + 1).drop_last() =~= b@.take(i as int));
        assert(b@.take(i + 1).last() == b@[i as int]);
        let x = b[i];
        push_char(&mut r, hex_digit(x / 16));
        push_char(&mut r, hex_digit(x % 16));
        i += 1;
        assert(r@ =~= hex_text(b@.take(i as int)));
    }
    assert(b@.take(b@.len() as int) =~= b@);
    proof {
        lemma_hex_text_len(b@);
    }
    r
}

/// Hex SHA-256 of the UTF-8 text, as the index records README contents.
pub fn sha2_hash(content: &str) -> (r: String)
    ensures
        r@ == hex_text(sha256(vstd::utf8::encode_utf8(content@))),
        r@.len() == 64,
{
    let d = sha256_digest(content.as_bytes());
    to_hex_lower(d.as_slice())
}

/// The language a file extension (with its dot) stands for.
pub open spec fn ext_language(e: Seq<char>) -> Option<Seq<char>> {
    if e == ".rs"@ {
        Some("Rust"@)
    } else if e == ".go"@ {
        Some("Go"@)
    } else if e == ".py"@ {
        Some("Python"@)
    } else if e == ".js"@ {
        Some("JavaScript"@)
    } else if e == ".ts"@ {
        Some("TypeScript"@)
    } else if e == ".tsx"@ {
        Some("TypeScript"@)
    } else if e == ".jsx"@ {
        Some("JavaScript"@)
    } else if e == ".java"@ {
        Some("Java"@)
    } else if e == ".kt"@ {
        Some("Kotlin"@)
    } else if e == ".scala"@ {
        Some("Scala"@)
    } else if e == ".c"@ {
        Some("C"@)
    } else if e == ".cpp"@ {
        Some("C++"@)
    } else if e == ".h"@ {
        Some("C"@)
    } else if e == ".hpp"@ {
        Some("C++"@)
    } else if e == ".cs"@ {
        Some("C#"@)
    } else if e == ".rb"@ {
        Some("Ruby"@)
    } else if e == ".php"@ {
        Some("PHP"@)
    } else if e == ".swift"@ {
        Some("Swift"@)
    } else if e == ".m"@ {
        Some("Objective-C"@)
    } else if e == ".sh"@ {
        Some("Shell"@)
    } else if e == ".bash"@ {
        Some("Shell"@)
    } else if e == ".lua"@ {
        Some("Lua"@)
    } else if e == ".r"@ {
        Some("R"@)
    } else if e == ".jl"@ {
        Some("Julia"@)
    } else if e == ".ex"@ {
        Some("Elixir"@)
    } else if e == ".exs"@ {
        Some("Elixir"@)
    } else if e == ".erl"@ {
        Some("Erlang"@)
    } else if e == ".hs"@ {
        Some("Haskell"@)
    } else if e == ".ml"@ {
        Some("OCaml"@)
    } else if e == ".zig"@ {
        Some("Zig"@)
    } else if e == ".nim"@ {
        Some("Nim"@)
    } else if e == ".dart"@ {
        Some("Dart"@)
    } else if e == ".vue"@ {
        Some("Vue"@)
    } else if e == ".svelte"@ {
        Some("Svelte"@)
    } else if e == ".html"@ {
        Some("HTML"@)
    } else if e == ".css"@ {
        Some("CSS"@)
    } else if e == ".scss"@ {
        Some("CSS"@)
    } else if e == ".less"@ {
        Some("CSS"@)
    } else if e == ".md"@ {
        Some("Markdown"@)
    } else if e == ".toml"@ {
        Some("Config"@)
    } else if e == ".yaml"@ {
        Some("Config"@)
    } else if e == ".json"@ {
        Some("Config"@)
    } else {
        None
    }
}

/// The language for a file extension, dot included.
pub fn language_for_extension(e: &str) -> (l: Option<String>)
    ensures
        match ext_language(e@) {
            Some(x) => l matches Some(s) && s@ == x,
            None => l is None,
        },
{
    if str_eq(e, ".rs") {
        Some(copy_string("Rust"))
    } else if str_eq(e, ".go") {
        Some(copy_string("Go"))
    } else if str_eq(e, ".py") {
        Some(copy_string("Python"))
    } else if str_eq(e, ".js") {
        Some(copy_string("JavaScript"))
    } else if str_eq(e, ".ts") {
        Some(copy_string("TypeScript"))
    } else if str_eq(e, ".tsx") {
        Some(copy_string("TypeScript"))
    } else if str_eq(e, ".jsx") {
        Some(copy_string("JavaScript"))
    } else if str_eq(e, ".java") {
        Some(copy_string("Java"))
    } else if str_eq(e, ".kt") {
        Some(copy_string("Kotlin"))
    } else if str_eq(e, ".scala") {
        Some(copy_string("Scala"))
    } else if str_eq(e, ".c") {
        Some(copy_string("C"))
    } else if str_eq(e, ".cpp") {
        Some(copy_string("C++"))
    } else if str_eq(e, ".h") {
        Some(copy_string("C"))
    } else if str_eq(e, ".hpp") {
        Some(copy_string("C++"))
    } else if str_eq(e, ".cs") {
        Some(copy_string("C#"))
    } else if str_eq(e, ".rb") {
        Some(copy_string("Ruby"))
    } else if str_eq(e, ".php") {
        Some(copy_string("PHP"))
    } else if str_eq(e, ".swift") {
        Some(copy_string("Swift"))
    } else if str_eq(e, ".m") {
        Some(copy_string("Objective-C"))
    } else if str_eq(e, ".sh") {
        Some(copy_string("Shell"))
    } else if str_eq(e, ".bash") {
        Some(copy_string("Shell"))
    } else if str_eq(e, ".lua") {
        Some(copy_string("Lua"))
    } else if str_eq(e, ".r") {
        Some(copy_string("R"))
    } else if str_eq(e, ".jl") {
        Some(copy_string("Julia"))
    } else if str_eq(e, ".ex") {
        Some(copy_string("Elixir"))
    } else if str_eq(e, ".exs") {
        Some(copy_string("Elixir"))
    } else if str_eq(e, ".erl") {
        Some(copy_string("Erlang"))
    } else if str_eq(e, ".hs") {
        Some(copy_string("Haskell"))
    } else if str_eq(e, ".ml") {
        Some(copy_string("OCaml"))
    } else if str_eq(e, ".zig") {
        Some(copy_string("Zig"))
    } else if str_eq(e, ".nim") {
        Some(copy_string("Nim"))
    } else if str_eq(e, ".dart") {
        Some(copy_string("Dart"))
    } else if str_eq(e, ".vue") {
        Some(copy_string("Vue"))
    } else if str_eq(e, ".svelte") {
        Some(copy_string("Svelte"))
    } else if str_eq(e, ".html") {
        Some(copy_string("HTML"))
    } else if str_eq(e, ".css") {
        Some(copy_string("CSS"))
    } else if str_eq(e, ".scss") {
        Some(copy_string("CSS"))
    } else if str_eq(e, ".less") {
        Some(copy_string("CSS"))
    } else if str_eq(e, ".md") {
        Some(copy_string("Markdown"))
    } else if str_eq(e, ".toml") {
        Some(copy_string("Config"))
    } else if str_eq(e, ".yaml") {
        Some(copy_string("Config"))
    } else if str_eq(e, ".json") {
        Some(copy_string("Config"))
    } else {
        None
    }
}

/// The language of a walked entry: regular files only, by extension.
pub open spec fn entry_language(e: WalkEntry) -> Option<Seq<char>> {
    if e.is_file {
        match path_extension(e.path@) {
            Some(x) => ext_language(seq!['.'] + x),
            None => None,
        }
    } else {
        None
    }
}

/// The language of a walked entry follows its extension, for regular files only: `rs` is
/// Rust, `ts` and `tsx` are TypeScript, `js` and `jsx` JavaScript, `md` Markdown, `toml`,
/// `yaml` and `json` Config, and so on through the table of [`language_for_extension`].
pub proof fn law_extension_languages(e: WalkEntry)
    ensures
        !e.is_file ==> entry_language(e) is None,
        e.is_file && path_extension(e.path@) == Some("rs"@) ==> entry_language(e) == Some("Rust"@),
        e.is_file && path_extension(e.path@) == Some("go"@) ==> entry_language(e) == Some("Go"@),
        e.is_file && path_extension(e.path@) == Some("py"@) ==> entry_language(e) == Some("Python"@),
        e.is_file && path_extension(e.path@) == Some("js"@) ==> entry_language(e) == Some("JavaScript"@),
        e.is_file && path_extension(e.path@) == Some("ts"@) ==> entry_language(e) == Some("TypeScript"@),
        e.is_file && path_extension(e.path@) == Some("tsx"@) ==> entry_language(e) == Some("TypeScript"@),
        e.is_file && path_extension(e.path@) == Some("jsx"@) ==> entry_language(e) == Some("JavaScript"@),
        e.is_file && path_extension(e.path@) == Some("java"@) ==> entry_language(e) == Some("Java"@),
        e.is_file && path_extension(e.path@) == Some("kt"@) ==> entry_language(e) == Some("Kotlin"@),
        e.is_file && path_extension(e.path@) == Some("scala"@) ==> entry_language(e) == Some("Scala"@),
        e.is_file && path_extension(e.path@) == Some("c"@) ==> entry_language(e) == Some("C"@),
        e.is_file && path_extension(e.path@) == Some("cpp"@) ==> entry_language(e) == Some("C++"@),
        e.is_file && path_extension(e.path@) == Some("h"@) ==> entry_language(e) == Some("C"@),
        e.is_file && path_extension(e.path@) == Some("hpp"@) ==> entry_language(e) == Some("C++"@),
        e.is_file && path_extension(e.path@) == Some("cs"@) ==> entry_language(e) == Some("C#"@),
        e.is_file && path_extension(e.path@) == Some("rb"@) ==> entry_language(e) == Some("Ruby"@),
        e.is_file && path_extension(e.path@) == Some("php"@) ==> entry_language(e) == Some("PHP"@),
        e.is_file && path_extension(e.path@) == Some("swift"@) ==> entry_language(e) == Some("Swift"@),
        e.is_file && path_extension(e.path@) == Some("m"@) ==> entry_language(e) == Some("Objective-C"@),
        e.is_file && path_extension(e.path@) == Some("sh"@) ==> entry_language(e) == Some("Shell"@),
        e.is_file && path_extension(e.path@) == Some("bash"@) ==> entry_language(e) == Some("Shell"@),
        e.is_file && path_extension(e.path@) == Some("lua"@) ==> entry_language(e) == Some("Lua"@),
        e.is_file && path_extension(e.path@) == Some("r"@) ==> entry_language(e) == Some("R"@),
        e.is_file && path_extension(e.path@) == Some("jl"@) ==> entry_language(e) == Some("Julia"@),
        e.is_file && path_extension(e.path@) == Some("ex"@) ==> entry_language(e) == Some("Elixir"@),
        e.is_file && path_extension(e.path@) == Some("exs"@) ==> entry_language(e) == Some("Elixir"@),
        e.is_file && path_extension(e.path@) == Some("erl"@) ==> entry_language(e) == Some("Erlang"@),
        e.is_file && path_extension(e.path@) == Some("hs"@) ==> entry_language(e) == Some("Haskell"@),
        e.is_file && path_extension(e.path@) == Some("ml"@) ==> entry_language(e) == Some("OCaml"@),
        e.is_file && path_extension(e.path@) == Some("zig"@) ==> entry_language(e) == Some("Zig"@),
        e.is_file && path_extension(e.path@) == Some("nim"@) ==> entry_language(e) == Some("Nim"@),
        e.is_file && path_extension(e.path@) == Some("dart"@) ==> entry_language(e) == Some("Dart"@),
        e.is_file && path_extension(e.path@) == Some("vue"@) ==> entry_language(e) == Some("Vue"@),
        e.is_file && path_extension(e.path@) == Some("svelte"@) ==> entry_language(e) == Some("Svelte"@),
        e.is_file && path_extension(e.path@) == Some("html"@) ==> entry_language(e) == Some("HTML"@),
        e.is_file && path_extension(e.path@) == Some("css"@) ==> entry_language(e) == Some("CSS"@),
        e.is_file && path_extension(e.path@) == Some("scss"@) ==> entry_language(e) == Some("CSS"@),
        e.is_file && path_extension(e.path@) == Some("less"@) ==> entry_language(e) == Some("CSS"@),
        e.is_file && path_extension(e.path@) == Some("md"@) ==> entry_language(e) == Some("Markdown"@),
        e.is_file && path_extension(e.path@) == Some("toml"@) ==> entry_language(e) == Some("Config"@),
        e.is_file && path_extension(e.path@) == Some("yaml"@) ==> entry_language(e) == Some("Config"@),
        e.is_file && path_extension(e.path@) == Some("json"@) ==> entry_language(e) == Some("Config"@),
{
    reveal_strlit(".rs");
    reveal_strlit("rs");
    reveal_strlit(".go");
    reveal_strlit("go");
    reveal_strlit(".py");
    reveal_strlit("py");
    reveal_strlit(".js");
    reveal_strlit("js");
    reveal_strlit(".ts");
    reveal_strlit("ts");
    reveal_strlit(".tsx");
    reveal_strlit("tsx");
    reveal_strlit(".jsx");
    reveal_strlit("jsx");
    reveal_strlit(".java");
    reveal_strlit("java");
    reveal_strlit(".kt");
    reveal_strlit("kt");
    reveal_strlit(".scala");
    reveal_strlit("scala");
    reveal_strlit(".c");
    reveal_strlit("c");
    reveal_strlit(".cpp");
    reveal_strlit("cpp");
    reveal_strlit(".h");
    reveal_strlit("h");
    reveal_strlit(".hpp");
    reveal_strlit("hpp");
    reveal_strlit(".cs");
    reveal_strlit("cs");
    reveal_strlit(".rb");
    reveal_strlit("rb");
    reveal_strlit(".php");
    reveal_strlit("php");
    reveal_strlit(".swift");
    reveal_strlit("swift");
    reveal_strlit(".m");
    reveal_strlit("m");
    reveal_strlit(".sh");
    reveal_strlit("sh");
    reveal_strlit(".bash");
    reveal_strlit("bash");
    reveal_strlit(".lua");
    reveal_strlit("lua");
    reveal_strlit(".r");
    reveal_strlit("r");
    reveal_strlit(".jl");
    reveal_strlit("jl");
    reveal_strlit(".ex");
    reveal_strlit("ex");
    reveal_strlit(".exs");
    reveal_strlit("exs");
    reveal_strlit(".erl");
    reveal_strlit("erl");
    reveal_strlit(".hs");
    reveal_strlit("hs");
    reveal_strlit(".ml");
    reveal_strlit("ml");
    reveal_strlit(".zig");
    reveal_strlit("zig");
    reveal_strlit(".nim");
    reveal_strlit("nim");
    reveal_strlit(".dart");
    reveal_strlit("dart");
    reveal_strlit(".vue");
    reveal_strlit("vue");
    reveal_strlit(".svelte");
    reveal_strlit("svelte");
    reveal_strlit(".html");
    reveal_strlit("html");
    reveal_strlit(".css");
    reveal_strlit("css");
    reveal_strlit(".scss");
    reveal_strlit("scss");
    reveal_strlit(".less");
    reveal_strlit("less");
    reveal_strlit(".md");
    reveal_strlit("md");
    reveal_strlit(".toml");
    reveal_strlit("toml");
    reveal_strlit(".yaml");
    reveal_strlit("yaml");
    reveal_strlit(".json");
    reveal_strlit("json");
    assert(".go"@[1] != ".rs"@[1]);
    assert(".py"@[1] != ".rs"@[1]);
    assert(".py"@[1] != ".go"@[1]);
    assert(".js"@[1] != ".rs"@[1]);
    assert(".js"@[1] != ".go"@[1]);
    assert(".js"@[1] != ".py"@[1]);
    assert(".ts"@[1] != ".rs"@[1]);
    assert(".ts"@[1] != ".go"@[1]);
    assert(".ts"@[1] != ".py"@[1]);
    assert(".ts"@[1] != ".js"@[1]);
    assert(".jsx"@[1] != ".tsx"@[1]);
    assert(".kt"@[1] != ".rs"@[1]);
    assert(".kt"@[1] != ".go"@[1]);
    assert(".kt"@[1] != ".py"@[1]);
    assert(".kt"@[1] != ".js"@[1]);
    assert(".kt"@[1] != ".ts"@[1]);
    assert(".cpp"@[1] != ".tsx"@[1]);
    assert(".cpp"@[1] != ".jsx"@[1]);
    assert(".h"@[1] != ".c"@[1]);
    assert(".hpp"@[1] != ".tsx"@[1]);
    assert(".hpp"@[1] != ".jsx"@[1]);
    assert(".hpp"@[1] != ".cpp"@[1]);
    assert(".cs"@[1] != ".rs"@[1]);
    assert(".cs"@[1] != ".go"@[1]);
    assert(".cs"@[1] != ".py"@[1]);
    assert(".cs"@[1] != ".js"@[1]);
    assert(".cs"@[1] != ".ts"@[1]);
    assert(".cs"@[1] != ".kt"@[1]);
    assert(".rb"@[2] != ".rs"@[2]);
    assert(".rb"@[1] != ".go"@[1]);
    assert(".rb"@[1] != ".py"@[1]);
    assert(".rb"@[1] != ".js"@[1]);
    assert(".rb"@[1] != ".ts"@[1]);
    assert(".rb"@[1] != ".kt"@[1]);
    assert(".rb"@[1] != ".cs"@[1]);
    assert(".php"@[1] != ".tsx"@[1]);
    assert(".php"@[1] != ".jsx"@[1]);
    assert(".php"@[1] != ".cpp"@[1]);
    assert(".php"@[1] != ".hpp"@[1]);
    assert(".swift"@[2] != ".scala"@[2]);
    assert(".m"@[1] != ".c"@[1]);
    assert(".m"@[1] != ".h"@[1]);
    assert(".sh"@[1] != ".rs"@[1]);
    assert(".sh"@[1] != ".go"@[1]);
    assert(".sh"@[1] != ".py"@[1]);
    assert(".sh"@[1] != ".js"@[1]);
    assert(".sh"@[1] != ".ts"@[1]);
    assert(".sh"@[1] != ".kt"@[1]);
    assert(".sh"@[1] != ".cs"@[1]);
    assert(".sh"@[1] != ".rb"@[1]);
    assert(".bash"@[1] != ".java"@[1]);
    assert(".lua"@[1] != ".tsx"@[1]);
    assert(".lua"@[1] != ".jsx"@[1]);
    assert(".lua"@[1] != ".cpp"@[1]);
    assert(".lua"@[1] != ".hpp"@[1]);
    assert(".lua"@[1] != ".php"@[1]);
    assert(".r"@[1] != ".c"@[1]);
    assert(".r"@[1] != ".h"@[1]);
    assert(".r"@[1] != ".m"@[1]);
    assert(".jl"@[1] != ".rs"@[1]);
    assert(".jl"@[1] != ".go"@[1]);
    assert(".jl"@[1] != ".py"@[1]);
    assert(".jl"@[2] != ".js"@[2]);
    assert(".jl"@[1] != ".ts"@[1]);
    assert(".jl"@[1] != ".kt"@[1]);
    assert(".jl"@[1] != ".cs"@[1]);
    assert(".jl"@[1] != ".rb"@[1]);
    assert(".jl"@[1] != ".sh"@[1]);
    assert(".ex"@[1] != ".rs"@[1]);
    assert(".ex"@[1] != ".go"@[1]);
    assert(".ex"@[1] != ".py"@[1]);
    assert(".ex"@[1] != ".js"@[1]);
    assert(".ex"@[1] != ".ts"@[1]);
    assert(".ex"@[1] != ".kt"@[1]);
    assert(".ex"@[1] != ".cs"@[1]);
    assert(".ex"@[1] != ".rb"@[1]);
    assert(".ex"@[1] != ".sh"@[1]);
    assert(".ex"@[1] != ".jl"@[1]);
    assert(".exs"@[1] != ".tsx"@[1]);
    assert(".exs"@[1] != ".jsx"@[1]);
    assert(".exs"@[1] != ".cpp"@[1]);
    assert(".exs"@[1] != ".hpp"@[1]);
    assert(".exs"@[1] != ".php"@[1]);
    assert(".exs"@[1] != ".lua"@[1]);
    assert(".erl"@[1] != ".tsx"@[1]);
    assert(".erl"@[1] != ".jsx"@[1]);
    assert(".erl"@[1] != ".cpp"@[1]);
    assert(".erl"@[1] != ".hpp"@[1]);
    assert(".erl"@[1] != ".php"@[1]);
    assert(".erl"@[1] != ".lua"@[1]);
    assert(".erl"@[2] != ".exs"@[2]);
    assert(".hs"@[1] != ".rs"@[1]);
    assert(".hs"@[1] != ".go"@[1]);
    assert(".hs"@[1] != ".py"@[1]);
    assert(".hs"@[1] != ".js"@[1]);
    assert(".hs"@[1] != ".ts"@[1]);
    assert(".hs"@[1] != ".kt"@[1]);
    assert(".hs"@[1] != ".cs"@[1]);
    assert(".hs"@[1] != ".rb"@[1]);
    assert(".hs"@[1] != ".sh"@[1]);
    assert(".hs"@[1] != ".jl"@[1]);
    assert(".hs"@[1] != ".ex"@[1]);
    assert(".ml"@[1] != ".rs"@[1]);
    assert(".ml"@[1] != ".go"@[1]);
    assert(".ml"@[1] != ".py"@[1]);
    assert(".ml"@[1] != ".js"@[1]);
    assert(".ml"@[1] != ".ts"@[1]);
    assert(".ml"@[1] != ".kt"@[1]);
    assert(".ml"@[1] != ".cs"@[1]);
    assert(".ml"@[1] != ".rb"@[1]);
    assert(".ml"@[1] != ".sh"@[1]);
    assert(".ml"@[1] != ".jl"@[1]);
    assert(".ml"@[1] != ".ex"@[1]);
    assert(".ml"@[1] != ".hs"@[1]);
    assert(".zig"@[1] != ".tsx"@[1]);
    assert(".zig"@[1] != ".jsx"@[1]);
    assert(".zig"@[1] != ".cpp"@[1]);
    assert(".zig"@[1] != ".hpp"@[1]);
    assert(".zig"@[1] != ".php"@[1]);
    assert(".zig"@[1] != ".lua"@[1]);
    assert(".zig"@[1] != ".exs"@[1]);
    assert(".zig"@[1] != ".erl"@[1]);
    assert(".nim"@[1] != ".tsx"@[1]);
    assert(".nim"@[1] != ".jsx"@[1]);
    assert(".nim"@[1] != ".cpp"@[1]);
    assert(".nim"@[1] != ".hpp"@[1]);
    assert(".nim"@[1] != ".php"@[1]);
    assert(".nim"@[1] != ".lua"@[1]);
    assert(".nim"@[1] != ".exs"@[1]);
    assert(".nim"@[1] != ".erl"@[1]);
    assert(".nim"@[1] != ".zig"@[1]);
    assert(".dart"@[1] != ".java"@[1]);
    assert(".dart"@[1] != ".bash"@[1]);
    assert(".vue"@[1] != ".tsx"@[1]);
    assert(".vue"@[1] != ".jsx"@[1]);
    assert(".vue"@[1] != ".cpp"@[1]);
    assert(".vue"@[1] != ".hpp"@[1]);
    assert(".vue"@[1] != ".php"@[1]);
    assert(".vue"@[1] != ".lua"@[1]);
    assert(".vue"@[1] != ".exs"@[1]);
    assert(".vue"@[1] != ".erl"@[1]);
    assert(".vue"@[1] != ".zig"@[1]);
    assert(".vue"@[1] != ".nim"@[1]);
    assert(".html"@[1] != ".java"@[1]);
    assert(".html"@[1] != ".bash"@[1]);
    assert(".html"@[1] != ".dart"@[1]);
    assert(".css"@[1] != ".tsx"@[1]);
    assert(".css"@[1] != ".jsx"@[1]);
    assert(".css"@[2] != ".cpp"@[2]);
    assert(".css"@[1] != ".hpp"@[1]);
    assert(".css"@[1] != ".php"@[1]);
    assert(".css"@[1] != ".lua"@[1]);
    assert(".css"@[1] != ".exs"@[1]);
    assert(".css"@[1] != ".erl"@[1]);
    assert(".css"@[1] != ".zig"@[1]);
    assert(".css"@[1] != ".nim"@[1]);
    assert(".css"@[1] != ".vue"@[1]);
    assert(".scss"@[1] != ".java"@[1]);
    assert(".scss"@[1] != ".bash"@[1]);
    assert(".scss"@[1] != ".dart"@[1]);
    assert(".scss"@[1] != ".html"@[1]);
    assert(".less"@[1] != ".java"@[1]);
    assert(".less"@[1] != ".bash"@[1]);
    assert(".less"@[1] != ".dart"@[1]);
    assert(".less"@[1] != ".html"@[1]);
    assert(".less"@[1] != ".scss"@[1]);
    assert(".md"@[1] != ".rs"@[1]);
    assert(".md"@[1] != ".go"@[1]);
    assert(".md"@[1] != ".py"@[1]);
    assert(".md"@[1] != ".js"@[1]);
    assert(".md"@[1] != ".ts"@[1]);
    assert(".md"@[1] != ".kt"@[1]);
    assert(".md"@[1] != ".cs"@[1]);
    assert(".md"@[1] != ".rb"@[1]);
    assert(".md"@[1] != ".sh"@[1]);
    assert(".md"@[1] != ".jl"@[1]);
    assert(".md"@[1] != ".ex"@[1]);
    assert(".md"@[1] != ".hs"@[1]);
    assert(".md"@[2] != ".ml"@[2]);
    assert(".toml"@[1] != ".java"@[1]);
    assert(".toml"@[1] != ".bash"@[1]);
    assert(".toml"@[1] != ".dart"@[1]);
    assert(".toml"@[1] != ".html"@[1]);
    assert(".toml"@[1] != ".scss"@[1]);
    assert(".toml"@[1] != ".less"@[1]);
    assert(".yaml"@[1] != ".java"@[1]);
    assert(".yaml"@[1] != ".bash"@[1]);
    assert(".yaml"@[1] != ".dart"@[1]);
    assert(".yaml"@[1] != ".html"@[1]);
    assert(".yaml"@[1] != ".scss"@[1]);
    assert(".yaml"@[1] != ".less"@[1]);
    assert(".yaml"@[1] != ".toml"@[1]);
    assert(".json"@[2] != ".java"@[2]);
    assert(".json"@[1] != ".bash"@[1]);
    assert(".json"@[1] != ".dart"@[1]);
    assert(".json"@[1] != ".html"@[1]);
    assert(".json"@[1] != ".scss"@[1]);
    assert(".json"@[1] != ".less"@[1]);
    assert(".json"@[1] != ".toml"@[1]);
    assert(".json"@[1] != ".yaml"@[1]);
    assert(seq!['.'] + "rs"@ =~= ".rs"@);
    assert(seq!['.'] + "go"@ =~= ".go"@);
    assert(seq!['.'] + "py"@ =~= ".py"@);
    assert(seq!['.'] + "js"@ =~= ".js"@);
    assert(seq!['.'] + "ts"@ =~= ".ts"@);
    assert(seq!['.'] + "tsx"@ =~= ".tsx"@);
    assert(seq!['.'] + "jsx"@ =~= ".jsx"@);
    assert(seq!['.'] + "java"@ =~= ".java"@);
    assert(seq!['.'] + "kt"@ =~= ".kt"@);
    assert(seq!['.'] + "scala"@ =~= ".scala"@);
    assert(seq!['.'] + "c"@ =~= ".c"@);
    assert(seq!['.'] + "cpp"@ =~= ".cpp"@);
    assert(seq!['.'] + "h"@ =~= ".h"@);
    assert(seq!['.'] + "hpp"@ =~= ".hpp"@);
    assert(seq!['.'] + "cs"@ =~= ".cs"@);
    assert(seq!['.'] + "rb"@ =~= ".rb"@);
    assert(seq!['.'] + "php"@ =~= ".php"@);
    assert(seq!['.'] + "swift"@ =~= ".swift"@);
    assert(seq!['.'] + "m"@ =~= ".m"@);
    assert(seq!['.'] + "sh"@ =~= ".sh"@);
    assert(seq!['.'] + "bash"@ =~= ".bash"@);
    assert(seq!['.'] + "lua"@ =~= ".lua"@);
    assert(seq!['.'] + "r"@ =~= ".r"@);
    assert(seq!['.'] + "jl"@ =~= ".jl"@);
    assert(seq!['.'] + "ex"@ =~= ".ex"@);
    assert(seq!['.'] + "exs"@ =~= ".exs"@);
    assert(seq!['.'] + "erl"@ =~= ".erl"@);
    assert(seq!['.'] + "hs"@ =~= ".hs"@);
    assert(seq!['.'] + "ml"@ =~= ".ml"@);
    assert(seq!['.'] + "zig"@ =~= ".zig"@);
    assert(seq!['.'] + "nim"@ =~= ".nim"@);
    assert(seq!['.'] + "dart"@ =~= ".dart"@);
    assert(seq!['.'] + "vue"@ =~= ".vue"@);
    assert(seq!['.'] + "svelte"@ =~= ".svelte"@);
    assert(seq!['.'] + "html"@ =~= ".html"@);
    assert(seq!['.'] + "css"@ =~= ".css"@);
    assert(seq!['.'] + "scss"@ =~= ".scss"@);
    assert(seq!['.'] + "less"@ =~= ".less"@);
    assert(seq!['.'] + "md"@ =~= ".md"@);
    assert(seq!['.'] + "toml"@ =~= ".toml"@);
    assert(seq!['.'] + "yaml"@ =~= ".yaml"@);
    assert(seq!['.'] + "json"@ =~= ".json"@);
}

fn language_of(e: &WalkEntry) -> (l: Option<String>)
    ensures
        match entry_language(*e) {
            Some(x) => l matches Some(s) && s@ == x,
            None => l is None,
        },
{
    if !e.is_file {
        return None;
    }
    match extension(e.path.as_str()) {
        None => None,
        Some(x) => {
            let mut d = String::new();
            push_char(&mut d, '.');
            push_str(&mut d, x.as_str());
            assert(d@ =~= seq!['.'] + x@);
            language_for_extension(d.as_str())
        },
    }
}

/// How many entries are files of language `l`.
pub open spec fn lang_count(entries: Seq<WalkEntry>, l: Seq<char>) -> nat
    decreases entries.len(),
{
    if entries.len() == 0 {
        0
    } else {
        lang_count(entries.drop_last(), l) + if entry_language(entries.last()) == Some(l) {
            1nat
        } else {
            0nat
        }
    }
}

/// Index of the first entry that is a file of language `l` (meaningful when there is one).
pub open spec fn first_seen(entries: Seq<WalkEntry>, l: Seq<char>) -> nat
    decreases entries.len(),
{
    if entries.len() == 0 {
        0
    } else if lang_count(entries.drop_last(), l) > 0 {
        first_seen(entries.drop_last(), l)
    } else {
        (entries.len() - 1) as nat
    }
}

/// Language `a` ranks before `b`: it has more files, or as many and was seen first.
pub open spec fn ranks_before(entries: Seq<WalkEntry>, a: Seq<char>, b: Seq<char>) -> bool {
    ||| lang_count(entries, a) > lang_count(entries, b)
    ||| lang_count(entries, a) == lang_count(entries, b) && first_seen(entries, a) < first_seen(entries, b)
}

/// `r` ranks the languages of the entries: the first three (or fewer) of the languages
/// present, most files first, ties broken by first appearance in the walk.
pub open spec fn ranked_languages(entries: Seq<WalkEntry>, r: Seq<Seq<char>>) -> bool {
    &&& r.len() <= 3
    &&& r.no_duplicates()
    &&& forall|i: int| 0 <= i < r.len() ==> lang_count(entries, #[trigger] r[i]) > 0
    &&& forall|i: int, j: int| 0 <= i < j < r.len() ==> ranks_before(entries, #[trigger] r[i], #[trigger] r[j])
    &&& forall|l: Seq<char>|
        #![trigger lang_count(entries, l)]
        lang_count(entries, l) > 0 && !r.contains(l) ==> r.len() == 3 && ranks_before(entries, r[2], l)
}

proof fn lemma_first_seen_bound(entries: Seq<WalkEntry>, l: Seq<char>)
    requires
        lang_count(entries, l) > 0,
    ensures
        first_seen(entries, l) < entries.len(),
    decreases entries.len(),
{
    if lang_count(entries.drop_last(), l) > 0 {
        lemma_first_seen_bound(entries.drop_last(), l);
    }
}

proof fn lemma_lang_count_le(entries: Seq<WalkEntry>, l: Seq<char>)
    ensures
        lang_count(entries, l) <= entries.len(),
    decreases entries.len(),
{
    if entries.len() > 0 {
        lemma_lang_count_le(entries.drop_last(), l);
    }
}

fn find_name(names: &Vec<String>, l: &String) -> (k: Option<usize>)
    ensures
        match k {
            Some(i) => i < names@.len() && names@[i as int]@ == l@,
            None => !views(names@).contains(l@),
        },
{
    let mut i: usize = 0;
    while i < names.len()
        invariant
            i <= names@.len(),
            forall|j: int| 0 <= j < i ==> names@[j]@ != l@,
        decreases names@.len() - i,
    {
        if str_eq(names[i].as_str(), l.as_str()) {
            return Some(i);
        }
        i += 1;
    }
    assert(!views(names@).contains(l@)) by {
        if views(names@).contains(l@) {
            let j = choose|j: int| 0 <= j < views(names@).len() && views(names@)[j] == l@;
            assert(names@[j]@ == l@);
        }
    }
    None
}

/// Per-language file counts, languages in order of first appearance.
fn count_languages(entries: &Vec<WalkEntry>) -> (r: (Vec<String>, Vec<usize>))
    ensures
        r.0@.len() == r.1@.len(),
        views(r.0@).no_duplicates(),
        forall|k: int|
            0 <= k < r.1@.len() ==> r.1@[k] == lang_count(entries@, r.0@[k]@) && r.1@[k] > 0,
        forall|l: Seq<char>|
            #![trigger lang_count(entries@, l)]
            lang_count(entries@, l) > 0 ==> views(r.0@).contains(l),
        forall|a: int, b: int|
            0 <= a < b < r.0@.len() ==> first_seen(entries@, #[trigger] r.0@[a]@) < first_seen(
                entries@,
                #[trigger] r.0@[b]@,
            ),
{
    let mut names: Vec<String> = Vec::new();
    let mut counts: Vec<usize> = Vec::new();
    let mut i: usize = 0;
    while i < entries.len()
        invariant
            i <= entries@.len(),
            names@.len() == counts@.len(),
            views(names@).no_duplicates(),
            forall|k: int|
                0 <= k < counts@.len() ==> counts@[k] == lang_count(
                    entries@.take(i as int),
                    names@[k]@,
                ) && counts@[k] > 0,
            forall|l: Seq<char>|
                #![trigger lang_count(entries@.take(i as int), l)]
                lang_count(entries@.take(i as int), l) > 0 ==> views(names@).contains(l),
            forall|a: int, b: int|
                0 <= a < b < names@.len() ==> first_seen(entries@.take(i as int), #[trigger] names@[a]@)
                    < first_seen(entries@.take(i as int), #[trigger] names@[b]@),
        decreases entries@.len() - i,
    {
        let ghost pre = entries@.take(i as int);
        let ghost post = entries@.take(i + 1);
        assert(post.drop_last() =~= pre);
        assert forall|j: int| 0 <= j < names@.len() implies first_seen(post, #[trigger] names@[j]@)
            == first_seen(pre, names@[j]@) by {
            assert(counts@[j] == lang_count(pre, names@[j]@) && counts@[j] > 0);
        }
        assert(post.last() == entries@[i as int]);
        match language_of(&entries[i]) {
            None => {
                assert forall|l: Seq<char>| lang_count(post, l) == lang_count(pre, l) by {}
            },
            Some(l) => {
                assert forall|x: Seq<char>|
                    lang_count(post, x) == lang_count(pre, x) + if x == l@ {
                        1nat
                    } else {
                        0nat
                    } by {}
                match find_name(&names, &l) {
                    Some(k) => {
                        proof {
                            lemma_lang_count_le(pre, l@);
                        }
                        let c = counts[k] + 1;
                        counts.set(k, c);
                        assert forall|j: int| 0 <= j < counts@.len() implies counts@[j]
                            == lang_count(post, names@[j]@) && counts@[j] > 0 by {
                            if j != k {
                                assert(views(names@)[j] != views(names@)[k as int]);
                            }
                        }
                    },
                    None => {
                        let ghost prev = views(names@);
                        let ghost old_names = names@;
                        assert(lang_count(pre, l@) == 0);
                        assert(first_seen(post, l@) == i);
                        assert forall|j: int| 0 <= j < old_names.len() implies first_seen(
                            pre,
                            #[trigger] old_names[j]@,
                        ) < i by {
                            assert(counts@[j] == lang_count(pre, old_names[j]@) && counts@[j] > 0);
                            lemma_first_seen_bound(pre, old_names[j]@);
                        }
                        names.push(l);
                        counts.push(1);
                        assert forall|a: int, b: int| 0 <= a < b < names@.len() implies first_seen(
                            post,
                            #[trigger] names@[a]@,
                        ) < first_seen(post, #[trigger] names@[b]@) by {
                            assert(names@[a] == old_names[a]);
                            if b < old_names.len() {
                                assert(names@[b] == old_names[b]);
                            }
                        }
                        assert(views(names@) =~= prev.push(l@));
                        assert(views(names@).no_duplicates());
                        assert forall|j: int| 0 <= j < counts@.len() implies counts@[j]
                            == lang_count(post, names@[j]@) && counts@[j] > 0 by {
                            if j < prev.len() {
                                assert(prev[j] != l@);
                            }
                        }
                        assert forall|x: Seq<char>| lang_count(post, x) > 0 implies views(
                            names@,
                        ).contains(x) by {
                            if x != l@ {
                                assert(prev.contains(x));
                                let j = choose|j: int| 0 <= j < prev.len() && prev[j] == x;
                                assert(views(names@)[j] == x);
                            } else {
                                assert(views(names@)[prev.len() as int] == x);
                            }
                        }
                    },
                }
            },
        }
        i += 1;
    }
    assert(entries@.take(entries@.len() as int) =~= entries@);
    (names, counts)
}

/// Position `a` of the count table ranks before position `b`: more files, or as many
/// and an earlier position.
spec fn slot_before(counts: Seq<usize>, a: int, b: int) -> bool {
    counts[a] > counts[b] || (counts[a] == counts[b] && a < b)
}

/// Ranks the languages of a repository's files: the three with most files, most first,
/// languages with equal counts in order of first appearance.
pub fn detect_languages(entries: &Vec<WalkEntry>) -> (r: Vec<String>)
    ensures
        ranked_languages(entries@, views(r@)),
{
    let (names, counts) = count_languages(entries);
    let m = names.len();
    let mut taken: Vec<bool> = Vec::new();
    let mut t: usize = 0;
    while t < m
        invariant
            t <= m,
            taken@.len() == t,
            forall|k: int| 0 <= k < t ==> !taken@[k],
        decreases m - t,
    {
        taken.push(false);
        t += 1;
    }
    let mut r: Vec<String> = Vec::new();
    let ghost mut picked: Seq<int> = Seq::empty();
    loop
        invariant
            m == names@.len(),
            names@.len() == counts@.len(),
            taken@.len() == m,
            r@.len() == picked.len(),
            r@.len() <= 3,
            forall|j: int| 0 <= j < picked.len() ==> 0 <= #[trigger] picked[j] < m,
            forall|j: int| 0 <= j < picked.len() ==> r@[j]@ == names@[picked[j]]@,
            forall|k: int| 0 <= k < m ==> (taken@[k] <==> picked.contains(k)),
            forall|a: int, b: int|
                0 <= a < b < picked.len() ==> slot_before(counts@, #[trigger] picked[a], #[trigger] picked[b]),
            picked.len() > 0 ==> forall|k: int|
                0 <= k < m && !taken@[k] ==> slot_before(counts@, picked.last(), k),
        ensures
            r@.len() == 3 || forall|k: int| 0 <= k < m ==> taken@[k],
            m == names@.len(),
            names@.len() == counts@.len(),
            taken@.len() == m,
            r@.len() == picked.len(),
            r@.len() <= 3,
            forall|j: int| 0 <= j < picked.len() ==> 0 <= #[trigger] picked[j] < m,
            forall|j: int| 0 <= j < picked.len() ==> r@[j]@ == names@[picked[j]]@,
            forall|k: int| 0 <= k < m ==> (taken@[k] <==> picked.contains(k)),
            forall|a: int, b: int|
                0 <= a < b < picked.len() ==> slot_before(counts@, #[trigger] picked[a], #[trigger] picked[b]),
            picked.len() > 0 ==> forall|k: int|
                0 <= k < m && !taken@[k] ==> slot_before(counts@, picked.last(), k),
        decreases 3 - r@.len(),
    {
        if r.len() >= 3 {
            break;
        }
        let mut best: usize = m;
        let mut k: usize = 0;
        while k < m
            invariant
                k <= m,
                m == counts@.len(),
                taken@.len() == m,
                best == m || (best < k && !taken@[best as int]),
                forall|j: int|
                    0 <= j < k && !taken@[j] ==> best < m && (j == best || slot_before(counts@, best as int, j)),
            decreases m - k,
        {
            if !taken[k] && (best == m || counts[k] > counts[best]) {
                best = k;
            }
            k += 1;
        }
        if best == m {
            break;
        }
        let ghost old_picked = picked;
        taken.set(best, true);
        r.push(copy_string(names[best].as_str()));
        proof {
            picked = picked.push(best as int);
            assert forall|j: int| 0 <= j < m implies (taken@[j] <==> picked.contains(j)) by {
                if j == best as int {
                    assert(picked[picked.len() - 1] == j);
                } else {
                    if old_picked.contains(j) {
                        let x = choose|x: int| 0 <= x < old_picked.len() && old_picked[x] == j;
                        assert(picked[x] == j);
                    }
                    if picked.contains(j) {
                        let x = choose|x: int| 0 <= x < picked.len() && picked[x] == j;
                        assert(x < old_picked.len());
                        assert(old_picked[x] == j);
                    }
                }
            }
            assert forall|a: int, b: int| 0 <= a < b < picked.len() implies slot_before(
                counts@,
                #[trigger] picked[a],
                #[trigger] picked[b],
            ) by {
                if b == picked.len() - 1 {
                    if a < b - 1 {
                        assert(slot_before(counts@, old_picked[a], old_picked.last()));
                    }
                    assert(!old_picked.contains(best as int));
                    assert(slot_before(counts@, old_picked.last(), best as int));
                }
            }
        }
    }
    proof {
        let rv = views(r@);
        assert forall|i: int| 0 <= i < rv.len() implies lang_count(entries@, #[trigger] rv[i]) > 0 by {
            let k = picked[i];
            assert(0 <= k < m);
            assert(rv[i] == names@[k]@);
            assert(counts@[k] > 0);
        }
        assert forall|i: int, j: int| 0 <= i < j < rv.len() implies ranks_before(
            entries@,
            #[trigger] rv[i],
            #[trigger] rv[j],
        ) by {
            let (a, b) = (picked[i], picked[j]);
            assert(rv[i] == names@[a]@);
            assert(rv[j] == names@[b]@);
            assert(slot_before(counts@, a, b));
            assert(counts@[a] == lang_count(entries@, names@[a]@));
            assert(counts@[b] == lang_count(entries@, names@[b]@));
            if counts@[a] == counts@[b] {
                assert(first_seen(entries@, names@[a]@) < first_seen(entries@, names@[b]@));
            }
        }
        assert(rv.no_duplicates()) by {
            assert forall|i: int, j: int| 0 <= i < rv.len() && 0 <= j < rv.len() && i != j implies rv[i]
                != rv[j] by {
                assert(views(names@)[picked[i]] == rv[i]);
                assert(views(names@)[picked[j]] == rv[j]);
                if i < j {
                    assert(slot_before(counts@, picked[i], picked[j]));
                } else {
                    assert(slot_before(counts@, picked[j], picked[i]));
                }
            }
        }
        assert forall|l: Seq<char>|
            #![trigger lang_count(entries@, l)]
            lang_count(entries@, l) > 0 && !rv.contains(l) implies rv.len() == 3 && ranks_before(
                entries@,
                rv[2],
                l,
            ) by {
            assert(views(names@).contains(l));
            let k = choose|k: int| 0 <= k < views(names@).len() && views(names@)[k] == l;
            if taken@[k] {
                assert(picked.contains(k));
                let x = choose|x: int| 0 <= x < picked.len() && picked[x] == k;
                assert(r@[x]@ == names@[k]@);
                assert(rv[x] == l);
                assert(rv.contains(l));
            }
            assert(!taken@[k]);
            let p = picked[2];
            assert(rv[2] == names@[p]@);
            assert(slot_before(counts@, p, k));
            assert(counts@[p] == lang_count(entries@, names@[p]@));
            assert(counts@[k] == lang_count(entries@, names@[k]@));
            if counts@[p] == counts@[k] {
                assert(first_seen(entries@, names@[p]@) < first_seen(entries@, names@[k]@));
            }
        }
    }
    r
}

/// Files whose presence marks a toolchain; the last, `src-tauri`, only counts together with
/// a `tauri` dependency in `Cargo.toml`.
pub open spec fn marker_files() -> Seq<Seq<char>> {
    seq![
        "package.json"@,
        "Cargo.toml"@,
        "go.mod"@,
        "requirements.txt"@,
        "Pipfile"@,
        "pyproject.toml"@,
        "pom.xml"@,
        "build.gradle"@,
        "Gemfile"@,
        "composer.json"@,
        "Package.swift"@,
        "mix.exs"@,
        "pubspec.yaml"@,
        "project.clj"@,
        "deps.edn"@,
        "dune-project"@,
        "cabal.file"@,
        "stack.yaml"@,
        "manage.py"@,
        "src-tauri"@,
    ]
}
/// The toolchain each marker file stands for on its own (all markers but `src-tauri`).
pub open spec fn marker_frameworks() -> Seq<Seq<char>> {
    seq![
        "Node.js"@,
        "Rust"@,
        "Go"@,
        "Python"@,
        "Python"@,
        "Python"@,
        "Java/Maven"@,
        "Java/Gradle"@,
        "Ruby"@,
        "PHP"@,
        "Swift"@,
        "Elixir"@,
        "Flutter"@,
        "Clojure"@,
        "Clojure"@,
        "OCaml"@,
        "Haskell"@,
        "Haskell"@,
        "Django"@,
    ]
}
/// `package.json` dependencies that mark a framework.
pub open spec fn node_keys() -> Seq<Seq<char>> {
    seq![
        "react"@,
        "vue"@,
        "next"@,
        "svelte"@,
        "express"@,
        "fastify"@,
        "tailwindcss"@,
    ]
}
/// The framework each `package.json` dependency stands for.
pub open spec fn node_frameworks() -> Seq<Seq<char>> {
    seq![
        "React"@,
        "Vue"@,
        "Next.js"@,
        "Svelte"@,
        "Express"@,
        "Fastify"@,
        "Tailwind CSS"@,
    ]
}
/// `Cargo.toml` dependencies that mark a framework.
pub open spec fn cargo_keys() -> Seq<Seq<char>> {
    seq![
        "tokio"@,
        "axum"@,
        "actix-web"@,
        "clap"@,
        "serde"@,
        "tauri"@,
    ]
}
/// The framework each `Cargo.toml` dependency stands for on its own (all but `tauri`).
pub open spec fn cargo_frameworks() -> Seq<Seq<char>> {
    seq![
        "Tokio"@,
        "Axum"@,
        "Actix"@,
        "clap"@,
        "Serde"@,
    ]
}
/// The marker files to look for, in order.
pub fn framework_marker_files() -> (v: Vec<String>)
    ensures
        views(v@) == marker_files(),
{
    let mut v: Vec<String> = Vec::new();
    v.push(copy_string("package.json"));
    v.push(copy_string("Cargo.toml"));
    v.push(copy_string("go.mod"));
    v.push(copy_string("requirements.txt"));
    v.push(copy_string("Pipfile"));
    v.push(copy_string("pyproject.toml"));
    v.push(copy_string("pom.xml"));
    v.push(copy_string("build.gradle"));
    v.push(copy_string("Gemfile"));
    v.push(copy_string("composer.json"));
    v.push(copy_string("Package.swift"));
    v.push(copy_string("mix.exs"));
    v.push(copy_string("pubspec.yaml"));
    v.push(copy_string("project.clj"));
    v.push(copy_string("deps.edn"));
    v.push(copy_string("dune-project"));
    v.push(copy_string("cabal.file"));
    v.push(copy_string("stack.yaml"));
    v.push(copy_string("manage.py"));
    v.push(copy_string("src-tauri"));
    assert(views(v@) =~= marker_files());
    v
}
/// The toolchain names of the marker files, in order.
pub fn marker_framework_names() -> (v: Vec<String>)
    ensures
        views(v@) == marker_frameworks(),
{
    let mut v: Vec<String> = Vec::new();
    v.push(copy_string("Node.js"));
    v.push(copy_string("Rust"));
    v.push(copy_string("Go"));
    v.push(copy_string("Python"));
    v.push(copy_string("Python"));
    v.push(copy_string("Python"));
    v.push(copy_string("Java/Maven"));
    v.push(copy_string("Java/Gradle"));
    v.push(copy_string("Ruby"));
    v.push(copy_string("PHP"));
    v.push(copy_string("Swift"));
    v.push(copy_string("Elixir"));
    v.push(copy_string("Flutter"));
    v.push(copy_string("Clojure"));
    v.push(copy_string("Clojure"));
    v.push(copy_string("OCaml"));
    v.push(copy_string("Haskell"));
    v.push(copy_string("Haskell"));
    v.push(copy_string("Django"));
    assert(views(v@) =~= marker_frameworks());
    v
}
/// The `package.json` dependencies looked for, in order.
pub fn node_key_names() -> (v: Vec<String>)
    ensures
        views(v@) == node_keys(),
{
    let mut v: Vec<String> = Vec::new();
    v.push(copy_string("react"));
    v.push(copy_string("vue"));
    v.push(copy_string("next"));
    v.push(copy_string("svelte"));
    v.push(copy_string("express"));
    v.push(copy_string("fastify"));
    v.push(copy_string("tailwindcss"));
    assert(views(v@) =~= node_keys());
    v
}
/// Their framework names.
pub fn node_framework_names() -> (v: Vec<String>)
    ensures
        views(v@) == node_frameworks(),
{
    let mut v: Vec<String> = Vec::new();
    v.push(copy_string("React"));
    v.push(copy_string("Vue"));
    v.push(copy_string("Next.js"));
    v.push(copy_string("Svelte"));
    v.push(copy_string("Express"));
    v.push(copy_string("Fastify"));
    v.push(copy_string("Tailwind CSS"));
    assert(views(v@) =~= node_frameworks());
    v
}
/// The `Cargo.toml` dependencies looked for, in order.
pub fn cargo_key_names() -> (v: Vec<String>)
    ensures
        views(v@) == cargo_keys(),
{
    let mut v: Vec<String> = Vec::new();
    v.push(copy_string("tokio"));
    v.push(copy_string("axum"));
    v.push(copy_string("actix-web"));
    v.push(copy_string("clap"));
    v.push(copy_string("serde"));
    v.push(copy_string("tauri"));
    assert(views(v@) =~= cargo_keys());
    v
}
/// Their framework names.
pub fn cargo_framework_names() -> (v: Vec<String>)
    ensures
        views(v@) == cargo_frameworks(),
{
    let mut v: Vec<String> = Vec::new();
    v.push(copy_string("Tokio"));
    v.push(copy_string("Axum"));
    v.push(copy_string("Actix"));
    v.push(copy_string("clap"));
    v.push(copy_string("Serde"));
    assert(views(v@) =~= cargo_frameworks());
    v
}

/// The names whose flag is set, in order (flags missing at the end count as unset).
pub open spec fn selected(names: Seq<Seq<char>>, flags: Seq<bool>) -> Seq<Seq<char>>
    decreases names.len(),
{
    if names.len() == 0 {
        Seq::empty()
    } else {
        let rest = selected(names.drop_last(), flags);
        let k = names.len() - 1;
        if k < flags.len() && flags[k] {
            rest.push(names.last())
        } else {
            rest
        }
    }
}

/// Tauri: a `src-tauri` directory (the marker after the named ones) together with a
/// `tauri` dependency (the dependency after the named ones).
pub open spec fn tauri_found(present: Seq<bool>, cargo_hits: Seq<bool>) -> bool {
    let m = marker_frameworks().len() as int;
    let c = cargo_frameworks().len() as int;
    m < present.len() && present[m] && c < cargo_hits.len() && cargo_hits[c]
}

/// The frameworks the findings yield, in the order they are found: toolchains of present
/// marker files, then `package.json` frameworks, then `Cargo.toml` frameworks, then
/// FastAPI when the Python requirements mention it, then Tauri.
pub open spec fn found_frameworks(
    present: Seq<bool>,
    node_hits: Seq<bool>,
    cargo_hits: Seq<bool>,
    fastapi: bool,
) -> Seq<Seq<char>> {
    selected(marker_frameworks(), present) + selected(node_frameworks(), node_hits) + selected(
        cargo_frameworks(),
        cargo_hits,
    ) + (if fastapi {
        seq!["FastAPI"@]
    } else {
        Seq::empty()
    }) + if tauri_found(present, cargo_hits) {
        seq!["Tauri"@]
    } else {
        Seq::empty()
    }
}

fn push_hits(cands: &mut Vec<String>, hits: &Vec<bool>, names: &Vec<String>)
    ensures
        views(final(cands)@) == views(old(cands)@) + selected(views(names@), hits@),
{
    let ghost start = views(cands@);
    let ghost nv = views(names@);
    let mut k: usize = 0;
    assert(nv.take(0) =~= Seq::<Seq<char>>::empty());
    assert(views(cands@) =~= start + selected(nv.take(0), hits@));
    while k < names.len()
        invariant
            k <= names@.len(),
            nv == views(names@),
            views(cands@) == start + selected(nv.take(k as int), hits@),
        decreases names@.len() - k,
    {
        assert(nv.take(k + 1).drop_last() =~= nv.take(k as int));
        assert(nv.take(k + 1).last() == names@[k as int]@);
        let ghost prev = views(cands@);
        if k < hits.len() && hits[k] {
            cands.push(copy_string(names[k].as_str()));
            assert(views(cands@) =~= prev.push(names@[k as int]@));
        }
        k += 1;
        assert(views(cands@) =~= start + selected(nv.take(k as int), hits@));
    }
    assert(nv.take(names@.len() as int) =~= nv);
}

/// The frameworks the findings yield, sorted, each once.
pub fn frameworks_from_findings(
    present: &Vec<bool>,
    node_hits: &Vec<bool>,
    cargo_hits: &Vec<bool>,
    fastapi: bool,
) -> (r: Vec<String>)
    ensures
        strictly_sorted(views(r@)),
        same_members(views(r@), found_frameworks(present@, node_hits@, cargo_hits@, fastapi)),
{
    let mut cands: Vec<String> = Vec::new();
    assert(views(cands@) =~= Seq::<Seq<char>>::empty());
    push_hits(&mut cands, present, &marker_framework_names());
    push_hits(&mut cands, node_hits, &node_framework_names());
    push_hits(&mut cands, cargo_hits, &cargo_framework_names());
    let ghost after_cargo = views(cands@);
    if fastapi {
        let ghost prev = views(cands@);
        cands.push(copy_string("FastAPI"));
        assert(views(cands@) =~= prev.push("FastAPI"@));
    }
    let ghost after_fastapi = views(cands@);
    assert(marker_frameworks().len() == 19);
    assert(cargo_frameworks().len() == 5);
    if present.len() > 19 && present[19] && cargo_hits.len() > 5 && cargo_hits[5] {
        cands.push(copy_string("Tauri"));
        assert(views(cands@) =~= after_fastapi.push("Tauri"@));
    }
    assert(views(cands@) =~= found_frameworks(present@, node_hits@, cargo_hits@, fastapi));
    sorted_unique(&cands)
}

/// Whether member `section` of a JSON document is an object with the key `key`.
pub open spec fn json_section_has(doc: serde_json::Value, section: Seq<char>, key: Seq<char>) -> bool {
    match json_get(doc, section) {
        Some(d) => match json_object(d) {
            Some(m) => json_object_keys(m).contains(key),
            None => false,
        },
        None => false,
    }
}

/// For each watched `package.json` dependency, whether the document lists it under
/// `dependencies` or `devDependencies`.
pub open spec fn node_doc_hits(doc: serde_json::Value) -> Seq<bool> {
    Seq::new(
        node_keys().len(),
        |k: int|
            json_section_has(doc, "dependencies"@, node_keys()[k]) || json_section_has(
                doc,
                "devDependencies"@,
                node_keys()[k],
            ),
    )
}

/// No findings.
pub open spec fn no_hits(n: nat) -> Seq<bool> {
    Seq::new(n, |k: int| false)
}

/// The `package.json` findings for a text: none when it is not JSON.
pub open spec fn node_text_hits(text: Seq<char>) -> Seq<bool> {
    match json_document(text) {
        Some(doc) => node_doc_hits(doc),
        None => no_hits(node_keys().len()),
    }
}

fn mark_json_keys(hits: &mut Vec<bool>, m: &serde_json::Map<String, serde_json::Value>, keys: &Vec<String>)
    requires
        old(hits)@.len() == keys@.len(),
    ensures
        final(hits)@.len() == old(hits)@.len(),
        forall|k: int|
            #![trigger final(hits)@[k]]
            0 <= k < keys@.len() ==> final(hits)@[k] == (old(hits)@[k] || json_object_keys(*m).contains(keys@[k]@)),
{
    let ghost h0 = hits@;
    let mut k: usize = 0;
    while k < keys.len()
        invariant
            k <= keys@.len(),
            hits@.len() == keys@.len(),
            h0.len() == keys@.len(),
            forall|j: int|
                #![trigger hits@[j]]
                0 <= j < k ==> hits@[j] == (h0[j] || json_object_keys(*m).contains(keys@[j]@)),
            forall|j: int| k <= j < keys@.len() ==> hits@[j] == h0[j],
        decreases keys@.len() - k,
    {
        if json_has_key(m, keys[k].as_str()) {
            hits.set(k, true);
        }
        k += 1;
    }
}

fn mark_json_section(hits: &mut Vec<bool>, doc: &serde_json::Value, section: &str, keys: &Vec<String>)
    requires
        old(hits)@.len() == keys@.len(),
    ensures
        final(hits)@.len() == old(hits)@.len(),
        forall|k: int|
            #![trigger final(hits)@[k]]
            0 <= k < keys@.len() ==> final(hits)@[k] == (old(hits)@[k] || json_section_has(*doc, section@, keys@[k]@)),
{
    match json_member(doc, section) {
        Some(d) => match json_as_object(d) {
            Some(m) => mark_json_keys(hits, m, keys),
            None => {},
        },
        None => {},
    }
}

/// Which of the watched dependencies a parsed `package.json` lists under `dependencies`
/// or `devDependencies`.
pub fn package_json_doc_hits(doc: &serde_json::Value) -> (hits: Vec<bool>)
    ensures
        hits@ == node_doc_hits(*doc),
{
    let keys = node_key_names();
    let mut hits: Vec<bool> = vec![false; 7];
    assert(views(keys@).len() == keys@.len());
    assert(keys@.len() == 7);
    mark_json_section(&mut hits, doc, "dependencies", &keys);
    mark_json_section(&mut hits, doc, "devDependencies", &keys);
    assert forall|k: int| 0 <= k < 7 implies keys@[k]@ == node_keys()[k] by {
        assert(views(keys@)[k] == keys@[k]@);
    }
    assert(hits@ =~= node_doc_hits(*doc));
    hits
}

/// Which of the watched dependencies a `package.json` text lists under `dependencies` or
/// `devDependencies`. Nothing is found in text that is not JSON.
pub fn package_json_hits(content: &str) -> (hits: Vec<bool>)
    ensures
        hits@ == node_text_hits(content@),
{
    match json_parse(content) {
        Some(doc) => package_json_doc_hits(&doc),
        None => {
            let hits: Vec<bool> = vec![false; 7];
            assert(hits@ =~= no_hits(node_keys().len()));
            hits
        },
    }
}

/// Whether the `dependencies` entry of a TOML document is a table with the key `key`.
pub open spec fn toml_section_has(doc: toml::Value, section: Seq<char>, key: Seq<char>) -> bool {
    match toml_get(doc, section) {
        Some(d) => match toml_table(d) {
            Some(m) => toml_table_keys(m).contains(key),
            None => false,
        },
        None => false,
    }
}

/// For each watched `Cargo.toml` dependency, whether the document lists it under `[dependencies]`.
pub open spec fn cargo_doc_hits(doc: toml::Value) -> Seq<bool> {
    Seq::new(cargo_keys().len(), |k: int| toml_section_has(doc, "dependencies"@, cargo_keys()[k]))
}

/// The `Cargo.toml` findings for a text: none when it is not TOML.
pub open spec fn cargo_text_hits(text: Seq<char>) -> Seq<bool> {
    match toml_document(text) {
        Some(doc) => cargo_doc_hits(doc),
        None => no_hits(cargo_keys().len()),
    }
}

/// Which of the watched dependencies a parsed `Cargo.toml` lists under `[dependencies]`.
pub fn cargo_toml_doc_hits(doc: &toml::Value) -> (hits: Vec<bool>)
    ensures
        hits@ == cargo_doc_hits(*doc),
{
    let keys = cargo_key_names();
    let mut hits: Vec<bool> = vec![false; 6];
    assert(views(keys@).len() == keys@.len());
    assert(keys@.len() == 6);
    assert forall|k: int| 0 <= k < 6 implies keys@[k]@ == cargo_keys()[k] by {
        assert(views(keys@)[k] == keys@[k]@);
    }
    match toml_member(doc, "dependencies") {
        Some(d) => match toml_as_table(d) {
            Some(m) => {
                let mut k: usize = 0;
                while k < 6
                    invariant
                        k <= 6,
                        hits@.len() == 6,
                        keys@.len() == 6,
                        forall|j: int| 0 <= j < 6 ==> keys@[j]@ == cargo_keys()[j],
                        toml_get(*doc, "dependencies"@) == Some(*d),
                        toml_table(*d) == Some(*m),
                        forall|j: int| #![trigger hits@[j]] 0 <= j < k ==> hits@[j] == toml_table_keys(*m).contains(keys@[j]@),
                        forall|j: int| k <= j < 6 ==> !hits@[j],
                    decreases 6 - k,
                {
                    if toml_has_key(m, keys[k].as_str()) {
                        hits.set(k, true);
                    }
                    k += 1;
                }
            },
            None => {},
        },
        None => {},
    }
    assert(hits@ =~= cargo_doc_hits(*doc));
    hits
}

/// Which of the watched dependencies a `Cargo.toml` text lists under `[dependencies]`.
/// Nothing is found in text that is not TOML.
pub fn cargo_toml_hits(content: &str) -> (hits: Vec<bool>)
    ensures
        hits@ == cargo_text_hits(content@),
{
    match toml_parse(content) {
        Some(doc) => cargo_toml_doc_hits(&doc),
        None => {
            let hits: Vec<bool> = vec![false; 6];
            assert(hits@ =~= no_hits(cargo_keys().len()));
            hits
        },
    }
}

/// What the application found in a repository's top directory for framework detection.
#[derive(Clone, Debug)]
pub struct FrameworkProbe {
    /// For each of [`framework_marker_files`], in order, whether the file exists.
    pub present: Vec<bool>,
    /// The text of `package.json`, when it exists and could be read.
    pub package_json: Option<String>,
    /// The text of `Cargo.toml`, when it exists and could be read.
    pub cargo_toml: Option<String>,
    /// The text of `requirements.txt`, when it exists and could be read.
    pub requirements_txt: Option<String>,
    /// The text of `pyproject.toml`, when it exists and could be read.
    pub pyproject_toml: Option<String>,
}

/// The `package.json` findings of a probe: none without a file.
pub open spec fn probe_node_hits(text: Option<String>) -> Seq<bool> {
    match text {
        Some(c) => node_text_hits(c@),
        None => no_hits(node_keys().len()),
    }
}

/// The `Cargo.toml` findings of a probe: none without a file.
pub open spec fn probe_cargo_hits(text: Option<String>) -> Seq<bool> {
    match text {
        Some(c) => cargo_text_hits(c@),
        None => no_hits(cargo_keys().len()),
    }
}

/// A Python manifest text that mentions `fastapi` (letter case ignored).
pub open spec fn mentions_fastapi(text: Option<String>) -> bool {
    text matches Some(t) && occurs_in("fastapi"@, ascii_lower(t@))
}

/// The probe's Python requirements (`requirements.txt` or `pyproject.toml`) mention FastAPI.
pub open spec fn probe_fastapi(probe: FrameworkProbe) -> bool {
    mentions_fastapi(probe.requirements_txt) || mentions_fastapi(probe.pyproject_toml)
}

/// `r` is what framework detection yields for the probe: the frameworks of its findings,
/// sorted, each once.
pub open spec fn frameworks_detected(probe: FrameworkProbe, r: Seq<Seq<char>>) -> bool {
    &&& strictly_sorted(r)
    &&& same_members(
        r,
        found_frameworks(
            probe.present@,
            probe_node_hits(probe.package_json),
            probe_cargo_hits(probe.cargo_toml),
            probe_fastapi(probe),
        ),
    )
}

fn mentions_fastapi_of(text: &Option<String>) -> (b: bool)
    ensures
        b == mentions_fastapi(*text),
{
    match text {
        Some(t) => contains_ignoring_case(t.as_str(), "fastapi"),
        None => false,
    }
}

/// Framework detection has one possible result for each probe.
pub proof fn law_frameworks_determined(probe: FrameworkProbe, r1: Seq<Seq<char>>, r2: Seq<Seq<char>>)
    requires
        frameworks_detected(probe, r1),
        frameworks_detected(probe, r2),
    ensures
        r1 == r2,
{
    law_sorted_list_determined_by_members(r1, r2);
}

proof fn lemma_selected_contains(names: Seq<Seq<char>>, flags: Seq<bool>, k: int)
    requires
        0 <= k < names.len(),
        k < flags.len(),
        flags[k],
    ensures
        selected(names, flags).contains(names[k]),
    decreases names.len(),
{
    let rest = selected(names.drop_last(), flags);
    let s = selected(names, flags);
    if k == names.len() - 1 {
        assert(s == rest.push(names.last()));
        assert(s[rest.len() as int] == names[k]);
    } else {
        lemma_selected_contains(names.drop_last(), flags, k);
        assert(names.drop_last()[k] == names[k]);
        let i = choose|i: int| 0 <= i < rest.len() && rest[i] == names[k];
        assert(s[i] == names[k]);
    }
}

proof fn lemma_concat_contains(a: Seq<Seq<char>>, b: Seq<Seq<char>>, x: Seq<char>)
    requires
        a.contains(x) || b.contains(x),
    ensures
        (a + b).contains(x),
{
    if a.contains(x) {
        let i = choose|i: int| 0 <= i < a.len() && a[i] == x;
        assert((a + b)[i] == x);
    } else {
        let i = choose|i: int| 0 <= i < b.len() && b[i] == x;
        assert((a + b)[a.len() + i] == x);
    }
}

/// Every framework a finding stands for is among the found ones.
proof fn lemma_found_contains(present: Seq<bool>, node_hits: Seq<bool>, cargo_hits: Seq<bool>, fastapi: bool)
    ensures
        forall|k: int|
            0 <= k < marker_frameworks().len() && k < present.len() && present[k] ==> #[trigger] found_frameworks(
                present,
                node_hits,
                cargo_hits,
                fastapi,
            ).contains(marker_frameworks()[k]),
        forall|k: int|
            0 <= k < node_frameworks().len() && k < node_hits.len() && node_hits[k] ==> #[trigger] found_frameworks(
                present,
                node_hits,
                cargo_hits,
                fastapi,
            ).contains(node_frameworks()[k]),
        forall|k: int|
            0 <= k < cargo_frameworks().len() && k < cargo_hits.len() && cargo_hits[k] ==> #[trigger] found_frameworks(
                present,
                node_hits,
                cargo_hits,
                fastapi,
            ).contains(cargo_frameworks()[k]),
        fastapi ==> found_frameworks(present, node_hits, cargo_hits, fastapi).contains("FastAPI"@),
        tauri_found(present, cargo_hits) ==> found_frameworks(present, node_hits, cargo_hits, fastapi).contains(
            "Tauri"@,
        ),
{
    let a = selected(marker_frameworks(), present);
    let b = selected(node_frameworks(), node_hits);
    let c = selected(cargo_frameworks(), cargo_hits);
    let d: Seq<Seq<char>> = if fastapi { seq!["FastAPI"@] } else { Seq::empty() };
    let e: Seq<Seq<char>> = if tauri_found(present, cargo_hits) { seq!["Tauri"@] } else { Seq::empty() };
    let all = found_frameworks(present, node_hits, cargo_hits, fastapi);
    assert(all == a + b + c + d + e);
    assert forall|x: Seq<char>| (a + b + c + d).contains(x) implies #[trigger] all.contains(x) by {
        lemma_concat_contains(a + b + c + d, e, x);
    }
    assert forall|x: Seq<char>| (a + b + c).contains(x) implies #[trigger] (a + b + c + d).contains(x) by {
        lemma_concat_contains(a + b + c, d, x);
    }
    assert forall|x: Seq<char>| (a + b).contains(x) implies #[trigger] (a + b + c).contains(x) by {
        lemma_concat_contains(a + b, c, x);
    }
    assert forall|k: int|
        0 <= k < marker_frameworks().len() && k < present.len() && present[k] implies #[trigger] all.contains(
            marker_frameworks()[k],
        ) by {
        lemma_selected_contains(marker_frameworks(), present, k);
        lemma_concat_contains(a, b, marker_frameworks()[k]);
    }
    assert forall|k: int|
        0 <= k < node_frameworks().len() && k < node_hits.len() && node_hits[k] implies #[trigger] all.contains(
            node_frameworks()[k],
        ) by {
        lemma_selected_contains(node_frameworks(), node_hits, k);
        lemma_concat_contains(a, b, node_frameworks()[k]);
    }
    assert forall|k: int|
        0 <= k < cargo_frameworks().len() && k < cargo_hits.len() && cargo_hits[k] implies #[trigger] all.contains(
            cargo_frameworks()[k],
        ) by {
        lemma_selected_contains(cargo_frameworks(), cargo_hits, k);
        lemma_concat_contains(a + b, c, cargo_frameworks()[k]);
    }
    if fastapi {
        assert(d[0] == "FastAPI"@);
        lemma_concat_contains(a + b + c, d, "FastAPI"@);
    }
    if tauri_found(present, cargo_hits) {
        assert(e[0] == "Tauri"@);
        lemma_concat_contains(a + b + c + d, e, "Tauri"@);
    }
}

/// A dependency under `[dependencies]` of a `Cargo.toml` marks its framework: `tokio` Tokio,
/// `axum` Axum, `actix-web` Actix, `clap` clap, `serde` Serde, and `tauri` Tauri when the
/// repository also has a `src-tauri` directory.
pub proof fn law_cargo_dependency_frameworks(probe: FrameworkProbe, doc: toml::Value, r: Seq<Seq<char>>)
    requires
        frameworks_detected(probe, r),
        probe.cargo_toml matches Some(t) && toml_document(t@) == Some(doc),
    ensures
        toml_section_has(doc, "dependencies"@, "tokio"@) ==> r.contains("Tokio"@),
        toml_section_has(doc, "dependencies"@, "axum"@) ==> r.contains("Axum"@),
        toml_section_has(doc, "dependencies"@, "actix-web"@) ==> r.contains("Actix"@),
        toml_section_has(doc, "dependencies"@, "clap"@) ==> r.contains("clap"@),
        toml_section_has(doc, "dependencies"@, "serde"@) ==> r.contains("Serde"@),
        toml_section_has(doc, "dependencies"@, "tauri"@) && probe.present@.len() > 19 && probe.present@[19]
            ==> r.contains("Tauri"@),
{
    let hits = probe_cargo_hits(probe.cargo_toml);
    assert(hits == cargo_doc_hits(doc));
    lemma_found_contains(probe.present@, probe_node_hits(probe.package_json), hits, probe_fastapi(probe));
    assert(marker_frameworks().len() == 19);
    assert(cargo_frameworks().len() == 5);
    assert(hits[5] == toml_section_has(doc, "dependencies"@, "tauri"@));
    assert(hits[0] == toml_section_has(doc, "dependencies"@, "tokio"@));
    assert(cargo_frameworks()[0] == "Tokio"@);
    assert(hits[1] == toml_section_has(doc, "dependencies"@, "axum"@));
    assert(cargo_frameworks()[1] == "Axum"@);
    assert(hits[2] == toml_section_has(doc, "dependencies"@, "actix-web"@));
    assert(cargo_frameworks()[2] == "Actix"@);
    assert(hits[3] == toml_section_has(doc, "dependencies"@, "clap"@));
    assert(cargo_frameworks()[3] == "clap"@);
    assert(hits[4] == toml_section_has(doc, "dependencies"@, "serde"@));
    assert(cargo_frameworks()[4] == "Serde"@);
}

/// A dependency of a `package.json`, under `dependencies` or `devDependencies`, marks its
/// framework: `react` React, `vue` Vue, `next` Next.js, `svelte` Svelte, `express`
/// Express, `fastify` Fastify, `tailwindcss` Tailwind CSS.
pub proof fn law_package_dependency_frameworks(probe: FrameworkProbe, doc: serde_json::Value, r: Seq<Seq<char>>)
    requires
        frameworks_detected(probe, r),
        probe.package_json matches Some(t) && json_document(t@) == Some(doc),
    ensures
        json_section_has(doc, "dependencies"@, "react"@) || json_section_has(doc, "devDependencies"@, "react"@)
            ==> r.contains("React"@),
        json_section_has(doc, "dependencies"@, "vue"@) || json_section_has(doc, "devDependencies"@, "vue"@)
            ==> r.contains("Vue"@),
        json_section_has(doc, "dependencies"@, "next"@) || json_section_has(doc, "devDependencies"@, "next"@)
            ==> r.contains("Next.js"@),
        json_section_has(doc, "dependencies"@, "svelte"@) || json_section_has(doc, "devDependencies"@, "svelte"@)
            ==> r.contains("Svelte"@),
        json_section_has(doc, "dependencies"@, "express"@) || json_section_has(doc, "devDependencies"@, "express"@)
            ==> r.contains("Express"@),
        json_section_has(doc, "dependencies"@, "fastify"@) || json_section_has(doc, "devDependencies"@, "fastify"@)
            ==> r.contains("Fastify"@),
        json_section_has(doc, "dependencies"@, "tailwindcss"@) || json_section_has(doc, "devDependencies"@, "tailwindcss"@)
            ==> r.contains("Tailwind CSS"@),
{
    let hits = probe_node_hits(probe.package_json);
    assert(hits == node_doc_hits(doc));
    lemma_found_contains(probe.present@, hits, probe_cargo_hits(probe.cargo_toml), probe_fastapi(probe));
    assert(hits[0] == (json_section_has(doc, "dependencies"@, "react"@) || json_section_has(doc, "devDependencies"@, "react"@)));
    assert(node_frameworks()[0] == "React"@);
    assert(hits[1] == (json_section_has(doc, "dependencies"@, "vue"@) || json_section_has(doc, "devDependencies"@, "vue"@)));
    assert(node_frameworks()[1] == "Vue"@);
    assert(hits[2] == (json_section_has(doc, "dependencies"@, "next"@) || json_section_has(doc, "devDependencies"@, "next"@)));
    assert(node_frameworks()[2] == "Next.js"@);
    assert(hits[3] == (json_section_has(doc, "dependencies"@, "svelte"@) || json_section_has(doc, "devDependencies"@, "svelte"@)));
    assert(node_frameworks()[3] == "Svelte"@);
    assert(hits[4] == (json_section_has(doc, "dependencies"@, "express"@) || json_section_has(doc, "devDependencies"@, "express"@)));
    assert(node_frameworks()[4] == "Express"@);
    assert(hits[5] == (json_section_has(doc, "dependencies"@, "fastify"@) || json_section_has(doc, "devDependencies"@, "fastify"@)));
    assert(node_frameworks()[5] == "Fastify"@);
    assert(hits[6] == (json_section_has(doc, "dependencies"@, "tailwindcss"@) || json_section_has(doc, "devDependencies"@, "tailwindcss"@)));
    assert(node_frameworks()[6] == "Tailwind CSS"@);
}

/// Each marker file present in the repository's top directory marks its toolchain:
/// `package.json` Node.js, `Cargo.toml` Rust, `go.mod` Go, `requirements.txt`, `Pipfile`
/// and `pyproject.toml` Python, ..., `manage.py` Django; and a `requirements.txt` or
/// `pyproject.toml` that mentions `fastapi` (in any letter case) marks FastAPI.
pub proof fn law_marker_frameworks(probe: FrameworkProbe, r: Seq<Seq<char>>)
    requires
        frameworks_detected(probe, r),
    ensures
        marker_files()[0] == "package.json"@,
        probe.present@.len() > 0 && probe.present@[0] ==> r.contains("Node.js"@),
        marker_files()[1] == "Cargo.toml"@,
        probe.present@.len() > 1 && probe.present@[1] ==> r.contains("Rust"@),
        marker_files()[2] == "go.mod"@,
        probe.present@.len() > 2 && probe.present@[2] ==> r.contains("Go"@),
        marker_files()[3] == "requirements.txt"@,
        probe.present@.len() > 3 && probe.present@[3] ==> r.contains("Python"@),
        marker_files()[4] == "Pipfile"@,
        probe.present@.len() > 4 && probe.present@[4] ==> r.contains("Python"@),
        marker_files()[5] == "pyproject.toml"@,
        probe.present@.len() > 5 && probe.present@[5] ==> r.contains("Python"@),
        marker_files()[6] == "pom.xml"@,
        probe.present@.len() > 6 && probe.present@[6] ==> r.contains("Java/Maven"@),
        marker_files()[7] == "build.gradle"@,
        probe.present@.len() > 7 && probe.present@[7] ==> r.contains("Java/Gradle"@),
        marker_files()[8] == "Gemfile"@,
        probe.present@.len() > 8 && probe.present@[8] ==> r.contains("Ruby"@),
        marker_files()[9] == "composer.json"@,
        probe.present@.len() > 9 && probe.present@[9] ==> r.contains("PHP"@),
        marker_files()[10] == "Package.swift"@,
        probe.present@.len() > 10 && probe.present@[10] ==> r.contains("Swift"@),
        marker_files()[11] == "mix.exs"@,
        probe.present@.len() > 11 && probe.present@[11] ==> r.contains("Elixir"@),
        marker_files()[12] == "pubspec.yaml"@,
        probe.present@.len() > 12 && probe.present@[12] ==> r.contains("Flutter"@),
        marker_files()[13] == "project.clj"@,
        probe.present@.len() > 13 && probe.present@[13] ==> r.contains("Clojure"@),
        marker_files()[14] == "deps.edn"@,
        probe.present@.len() > 14 && probe.present@[14] ==> r.contains("Clojure"@),
        marker_files()[15] == "dune-project"@,
        probe.present@.len() > 15 && probe.present@[15] ==> r.contains("OCaml"@),
        marker_files()[16] == "cabal.file"@,
        probe.present@.len() > 16 && probe.present@[16] ==> r.contains("Haskell"@),
        marker_files()[17] == "stack.yaml"@,
        probe.present@.len() > 17 && probe.present@[17] ==> r.contains("Haskell"@),
        marker_files()[18] == "manage.py"@,
        probe.present@.len() > 18 && probe.present@[18] ==> r.contains("Django"@),
        marker_files()[19] == "src-tauri"@,
        probe.requirements_txt matches Some(t) && occurs_in("fastapi"@, ascii_lower(t@)) ==> r.contains("FastAPI"@),
        probe.pyproject_toml matches Some(t) && occurs_in("fastapi"@, ascii_lower(t@)) ==> r.contains("FastAPI"@),
{
    lemma_found_contains(
        probe.present@,
        probe_node_hits(probe.package_json),
        probe_cargo_hits(probe.cargo_toml),
        probe_fastapi(probe),
    );
    assert(marker_frameworks()[0] == "Node.js"@);
    assert(marker_frameworks()[1] == "Rust"@);
    assert(marker_frameworks()[2] == "Go"@);
    assert(marker_frameworks()[3] == "Python"@);
    assert(marker_frameworks()[4] == "Python"@);
    assert(marker_frameworks()[5] == "Python"@);
    assert(marker_frameworks()[6] == "Java/Maven"@);
    assert(marker_frameworks()[7] == "Java/Gradle"@);
    assert(marker_frameworks()[8] == "Ruby"@);
    assert(marker_frameworks()[9] == "PHP"@);
    assert(marker_frameworks()[10] == "Swift"@);
    assert(marker_frameworks()[11] == "Elixir"@);
    assert(marker_frameworks()[12] == "Flutter"@);
    assert(marker_frameworks()[13] == "Clojure"@);
    assert(marker_frameworks()[14] == "Clojure"@);
    assert(marker_frameworks()[15] == "OCaml"@);
    assert(marker_frameworks()[16] == "Haskell"@);
    assert(marker_frameworks()[17] == "Haskell"@);
    assert(marker_frameworks()[18] == "Django"@);
}

/// The frameworks of a repository, sorted and without repeats: toolchains of the marker
/// files present (`manage.py` marks Django), frameworks among the dependencies of
/// `package.json` (`dependencies`, `devDependencies`) and `Cargo.toml` (`[dependencies]`),
/// FastAPI when `requirements.txt` or `pyproject.toml` mentions it, and Tauri for a
/// `src-tauri` directory together with a `tauri` dependency.
pub fn detect_frameworks(probe: &FrameworkProbe) -> (r: Vec<String>)
    ensures
        frameworks_detected(*probe, views(r@)),
{
    let node_hits = match &probe.package_json {
        Some(c) => package_json_hits(c.as_str()),
        None => {
            let h: Vec<bool> = vec![false; 7];
            assert(h@ =~= no_hits(node_keys().len()));
            h
        },
    };
    let cargo_hits = match &probe.cargo_toml {
        Some(c) => cargo_toml_hits(c.as_str()),
        None => {
            let h: Vec<bool> = vec![false; 6];
            assert(h@ =~= no_hits(cargo_keys().len()));
            h
        },
    };
    let fastapi = mentions_fastapi_of(&probe.requirements_txt) || mentions_fastapi_of(&probe.pyproject_toml);
    frameworks_from_findings(&probe.present, &node_hits, &cargo_hits, fastapi)
}

/// How many of the first five lines there are.
pub open spec fn lines_so_far(content: Seq<char>) -> nat {
    let n = text_lines(content).len();
    if n < 5 {
        n
    } else {
        5
    }
}

/// The README summary: its first 500 characters, surrounding whitespace left out.
pub open spec fn readme_summary(content: Seq<char>) -> Seq<char> {
    let t = trim(content);
    if t.len() > 500 {
        t.take(500)
    } else {
        t
    }
}

/// A README summary never exceeds 500 characters.
pub proof fn law_summary_at_most_500(content: Seq<char>)
    ensures
        readme_summary(content).len() <= 500,
{
}

/// How many of the first five lines of a text exist.
pub fn summary_lines_so_far(content: &str) -> (n: usize)
    ensures
        n == lines_so_far(content@),
{
    let lines = lines_of(content);
    assert(views(lines@).len() == lines@.len());
    if lines.len() < 5 {
        lines.len()
    } else {
        5
    }
}

/// The summary of a README text.
pub fn summarize_readme(content: &str) -> (r: String)
    ensures
        r@ == readme_summary(content@),
{
    let cs = chars_of(content);
    let (lo, hi) = crate::text::trim_bounds(&cs);
    let end = if hi - lo > 500 { lo + 500 } else { hi };
    let r = string_from_range(&cs, lo, end);
    proof {
        let t = trim(content@);
        if t.len() > 500 {
            assert(r@ =~= t.take(500));
        } else {
            assert(r@ =~= t);
        }
    }
    r
}

/// The README names looked for, in order of preference.
pub open spec fn readme_names() -> Seq<Seq<char>> {
    seq!["README.md"@, "README.rst"@, "README.txt"@, "README"@, "readme.md"@]
}

/// The README names looked for, in order of preference.
pub fn readme_file_names() -> (v: Vec<String>)
    ensures
        views(v@) == readme_names(),
{
    let mut v: Vec<String> = Vec::new();
    v.push(copy_string("README.md"));
    v.push(copy_string("README.rst"));
    v.push(copy_string("README.txt"));
    v.push(copy_string("README"));
    v.push(copy_string("readme.md"));
    assert(views(v@) =~= readme_names());
    v
}

/// The first README text found, if any.
pub open spec fn first_readme(contents: Seq<Option<String>>) -> Option<Seq<char>>
    decreases contents.len(),
{
    if contents.len() == 0 {
        None
    } else {
        match contents[0] {
            Some(c) => Some(c@),
            None => first_readme(contents.drop_first()),
        }
    }
}

/// README files are taken in the order `README.md`, `README.rst`, `README.txt`, `README`,
/// `readme.md`: the text used is that of the first of them that could be read.
pub proof fn law_readme_preference(contents: Seq<Option<String>>, k: int)
    requires
        0 <= k < contents.len(),
        contents[k] is Some,
        forall|j: int| 0 <= j < k ==> contents[j] is None,
    ensures
        first_readme(contents) == Some(contents[k]->0@),
        readme_names() == seq!["README.md"@, "README.rst"@, "README.txt"@, "README"@, "readme.md"@],
    decreases k,
{
    if k > 0 {
        let rest = contents.drop_first();
        assert(rest[k - 1] == contents[k]);
        assert forall|j: int| 0 <= j < k - 1 implies rest[j] is None by {
            assert(rest[j] == contents[j + 1]);
        }
        law_readme_preference(rest, k - 1);
        assert(contents[0] is None);
    }
}

/// The content hash and summary of the first README that could be read; both empty
/// when there is none. `contents` holds, for each of [`readme_file_names`] in order, the
/// file's text when it exists and could be read.
pub fn extract_readme_summary(contents: &Vec<Option<String>>) -> (r: (String, String))
    ensures
        match first_readme(contents@) {
            Some(c) => r.0@ == hex_text(sha256(vstd::utf8::encode_utf8(c))) && r.0@.len() == 64 && r.1@
                == readme_summary(c),
            None => r.0@.len() == 0 && r.1@.len() == 0,
        },
{
    let mut i: usize = 0;
    assert(contents@.skip(0) =~= contents@);
    while i < contents.len()
        invariant
            i <= contents@.len(),
            first_readme(contents@) == first_readme(contents@.skip(i as int)),
        decreases contents@.len() - i,
    {
        assert(contents@.skip(i as int)[0] == contents@[i as int]);
        assert(contents@.skip(i as int).drop_first() =~= contents@.skip(i + 1));
        if let Some(c) = &contents[i] {
            let hash = sha2_hash(c.as_str());
            let summary = summarize_readme(c.as_str());
            return (hash, summary);
        }
        i += 1;
    }
    (String::new(), String::new())
}

/// What the application read of a repository's files for its fingerprint.
#[derive(Clone, Debug)]
pub struct RepoFiles {
    /// The walk of the repository (hidden files and ignored paths left out).
    pub entries: Vec<WalkEntry>,
    /// Marker files and manifests of the top directory.
    pub frameworks: FrameworkProbe,
    /// For each of [`readme_file_names`], in order, the text when the file exists and could be read.
    pub readmes: Vec<Option<String>>,
}

/// `hash` and `summary` are what README extraction yields for the candidate texts.
pub open spec fn readme_extracted(contents: Seq<Option<String>>, hash: Seq<char>, summary: Seq<char>) -> bool {
    match first_readme(contents) {
        Some(c) => hash == hex_text(sha256(vstd::utf8::encode_utf8(c))) && hash.len() == 64 && summary
            == readme_summary(c),
        None => hash.len() == 0 && summary.len() == 0,
    }
}

/// Fills in a repository's languages, frameworks, README hash and README summary from
/// its files; every other field is left as it was.
pub fn enrich_repo(repo: &mut Repo, files: &RepoFiles)
    ensures
        ranked_languages(files.entries@, views(final(repo).languages@)),
        frameworks_detected(files.frameworks, views(final(repo).frameworks@)),
        readme_extracted(files.readmes@, final(repo).readme_hash@, final(repo).readme_summary@),
        final(repo).id == old(repo).id,
        final(repo).name == old(repo).name,
        final(repo).path == old(repo).path,
        final(repo).parent_path == old(repo).parent_path,
        final(repo).branch == old(repo).branch,
        final(repo).last_commit_hash == old(repo).last_commit_hash,
        final(repo).last_commit_date == old(repo).last_commit_date,
        final(repo).last_commit_msg == old(repo).last_commit_msg,
        final(repo).file_count == old(repo).file_count,
        final(repo).size_bytes == old(repo).size_bytes,
        final(repo).scanned_at == old(repo).scanned_at,
        final(repo).created_at == old(repo).created_at,
        final(repo).updated_at == old(repo).updated_at,
{
    repo.languages = detect_languages(&files.entries);
    repo.frameworks = detect_frameworks(&files.frameworks);
    let (hash, summary) = extract_readme_summary(&files.readmes);
    repo.readme_hash = hash;
    repo.readme_summary = summary;
}

} // verus!
