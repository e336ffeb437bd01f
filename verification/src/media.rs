//! Media types of modules and their classification for the load path.

use vstd::prelude::*;
use vstd::string::*;
use crate::strutil::str_eq;

verus! {

/// The media type of a module's source, as detected from its specifier or
/// reported by the content source.
#[derive(Clone, Copy, Debug, PartialEq, Eq, Structural)]
pub enum MediaType {
    JavaScript,
    Jsx,
    Mjs,
    Cjs,
    TypeScript,
    Mts,
    Cts,
    Dts,
    Dmts,
    Dcts,
    Tsx,
    Css,
    Json,
    Jsonc,
    Json5,
    Html,
    Markdown,
    Sql,
    Wasm,
    SourceMap,
    Unknown,
}

impl MediaType {
    /// Source of this type is handed to the engine unchanged.
    pub open spec fn is_passthrough(self) -> bool {
        match self {
            MediaType::JavaScript
            | MediaType::Unknown
            | MediaType::Cjs
            | MediaType::Mjs
            | MediaType::Json => true,
            _ => false,
        }
    }

    /// A type-declaration source: never executed, loads as empty code.
    pub open spec fn is_declaration(self) -> bool {
        match self {
            MediaType::Dts | MediaType::Dmts | MediaType::Dcts => true,
            _ => false,
        }
    }

    /// Source of this type must be transpiled by the emitter before execution.
    pub open spec fn is_emittable(self) -> bool {
        match self {
            MediaType::TypeScript
            | MediaType::Mts
            | MediaType::Cts
            | MediaType::Jsx
            | MediaType::Tsx => true,
            _ => false,
        }
    }

    /// A media type that must never reach the load path inside a graph module;
    /// meeting one there is an internal invariant violation.
    pub open spec fn is_internal(self) -> bool {
        !self.is_passthrough() && !self.is_declaration() && !self.is_emittable()
    }

    /// Whether the executing engine treats the loaded module as JSON.
    pub open spec fn is_json(self) -> bool {
        self == MediaType::Json
    }
}

/// The display name of the media type that the outside detector derives from
/// a path: a function of the path's characters alone.
pub uninterp spec fn media_type_name_of(path: Seq<char>) -> Seq<char>;

/// Relies on deno_ast's media type detection (deno_media_type): the media
/// type derived from a path depends on the path's file name alone, and its
/// display name is a fixed string per media type.
#[verifier::external_body]
fn media_type_name_for(path: &str) -> (r: String)
    ensures
        r@ == media_type_name_of(path@),
{
    deno_ast::MediaType::from_str(path).to_string()
}

/// The media type whose display name is `n`; unrecognized names fall back to
/// `Unknown`, whose own display name is "Unknown".
pub open spec fn spec_media_type_of_name(n: Seq<char>) -> MediaType {
    if n == "JavaScript"@ {
        MediaType::JavaScript
    } else if n == "JSX"@ {
        MediaType::Jsx
    } else if n == "Mjs"@ {
        MediaType::Mjs
    } else if n == "Cjs"@ {
        MediaType::Cjs
    } else if n == "TypeScript"@ {
        MediaType::TypeScript
    } else if n == "Mts"@ {
        MediaType::Mts
    } else if n == "Cts"@ {
        MediaType::Cts
    } else if n == "Dts"@ {
        MediaType::Dts
    } else if n == "Dmts"@ {
        MediaType::Dmts
    } else if n == "Dcts"@ {
        MediaType::Dcts
    } else if n == "TSX"@ {
        MediaType::Tsx
    } else if n == "Css"@ {
        MediaType::Css
    } else if n == "Json"@ {
        MediaType::Json
    } else if n == "Jsonc"@ {
        MediaType::Jsonc
    } else if n == "Json5"@ {
        MediaType::Json5
    } else if n == "Html"@ {
        MediaType::Html
    } else if n == "Markdown"@ {
        MediaType::Markdown
    } else if n == "Sql"@ {
        MediaType::Sql
    } else if n == "Wasm"@ {
        MediaType::Wasm
    } else if n == "SourceMap"@ {
        MediaType::SourceMap
    } else {
        MediaType::Unknown
    }
}

/// Maps a media type's display name back to the media type.
pub fn media_type_of_name(n: &str) -> (m: MediaType)
    ensures
        m == spec_media_type_of_name(n@),
{
    if str_eq(n, "JavaScript") {
        MediaType::JavaScript
    } else if str_eq(n, "JSX") {
        MediaType::Jsx
    } else if str_eq(n, "Mjs") {
        MediaType::Mjs
    } else if str_eq(n, "Cjs") {
        MediaType::Cjs
    } else if str_eq(n, "TypeScript") {
        MediaType::TypeScript
    } else if str_eq(n, "Mts") {
        MediaType::Mts
    } else if str_eq(n, "Cts") {
        MediaType::Cts
    } else if str_eq(n, "Dts") {
        MediaType::Dts
    } else if str_eq(n, "Dmts") {
        MediaType::Dmts
    } else if str_eq(n, "Dcts") {
        MediaType::Dcts
    } else if str_eq(n, "TSX") {
        MediaType::Tsx
    } else if str_eq(n, "Css") {
        MediaType::Css
    } else if str_eq(n, "Json") {
        MediaType::Json
    } else if str_eq(n, "Jsonc") {
        MediaType::Jsonc
    } else if str_eq(n, "Json5") {
        MediaType::Json5
    } else if str_eq(n, "Html") {
        MediaType::Html
    } else if str_eq(n, "Markdown") {
        MediaType::Markdown
    } else if str_eq(n, "Sql") {
        MediaType::Sql
    } else if str_eq(n, "Wasm") {
        MediaType::Wasm
    } else if str_eq(n, "SourceMap") {
        MediaType::SourceMap
    } else {
        MediaType::Unknown
    }
}

/// The media type that the path-based detector assigns to `specifier`.
pub open spec fn spec_media_type_for_specifier(s: Seq<char>) -> MediaType {
    spec_media_type_of_name(media_type_name_of(s))
}

/// Detects the media type of a specifier from its path, through the outside
/// detector, and maps the detector's answer to the library's media type.
pub fn media_type_for_specifier(specifier: &str) -> (m: MediaType)
    ensures
        m == spec_media_type_for_specifier(specifier@),
{
    let name = media_type_name_for(specifier);
    media_type_of_name(name.as_str())
}

} // verus!
