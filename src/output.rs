//! Assembly of the text block printed for one discovered database file.
use vstd::prelude::*;
use crate::meta::{meta_block, metadata_fmt, renderable, FileMeta};
use crate::schema::{is_schema_block, schema_fmt, views_of_strings};
use crate::text::{chars_of, concat_chars, string_of};

verus! {

/// Which sections a run prints and how SQL text is shown.
pub struct Options {
    /// Print the metadata section.
    pub show_metadata: bool,
    /// Print the schema section.
    pub show_schema: bool,
    /// Text printed after each block that has a section.
    pub batch_separator: String,
    /// Normalise SQL text; when false it is shown as stored.
    pub format_sql: bool,
    /// With normalisation, use the multi-line form instead of the compact one.
    pub format_sql_pretty: bool,
}

/// The block for one file: the path, then the metadata section when it is
/// asked for and could be rendered, then the schema section when it is
/// asked for, then the separator when either section was asked for.
pub open spec fn block_text(
    path: Seq<char>,
    meta: Option<Seq<char>>,
    schema: Seq<char>,
    show_metadata: bool,
    show_schema: bool,
    sep: Seq<char>,
) -> Seq<char> {
    path + (if show_metadata && meta is Some {
        "\n    meta\n"@ + meta->0
    } else {
        Seq::empty()
    }) + (if show_schema {
        "\n    schema\n"@ + schema
    } else {
        Seq::empty()
    }) + (if show_metadata || show_schema {
        sep
    } else {
        Seq::empty()
    })
}

/// The view of an optional string.
pub open spec fn opt_view(o: Option<String>) -> Option<Seq<char>> {
    match o {
        Some(s) => Some(s@),
        None => None,
    }
}

/// Builds the block for one file, to be written in a single piece.
pub fn assemble_block(path: &str, meta: &Option<String>, schema: &str, opt: &Options) -> (r:
    String)
    ensures
        r@ == block_text(
            path@,
            opt_view(*meta),
            schema@,
            opt.show_metadata,
            opt.show_schema,
            opt.batch_separator@,
        ),
{
    let mut out = chars_of(path);
    let ghost p0 = out@;
    let mut meta_part: Vec<char> = Vec::new();
    if opt.show_metadata {
        match meta {
            Some(m) => {
                meta_part = concat_chars(&chars_of("\n    meta\n"), &chars_of(m.as_str()));
            },
            None => {},
        }
    }
    let mut schema_part: Vec<char> = Vec::new();
    if opt.show_schema {
        schema_part = concat_chars(&chars_of("\n    schema\n"), &chars_of(schema));
    }
    let mut sep_part: Vec<char> = Vec::new();
    if opt.show_metadata || opt.show_schema {
        sep_part = chars_of(opt.batch_separator.as_str());
    }
    proof {
        assert(meta_part@ =~= (if opt.show_metadata && opt_view(*meta) is Some {
            "\n    meta\n"@ + opt_view(*meta)->0
        } else {
            Seq::empty()
        }));
    }
    out = concat_chars(&out, &meta_part);
    out = concat_chars(&out, &schema_part);
    out = concat_chars(&out, &sep_part);
    string_of(&out)
}

/// The block for a file whose catalog could be read. A metadata block that
/// cannot be rendered is left out; the rest of the block stays.
pub open spec fn is_file_block(
    block: Seq<char>,
    path: Seq<char>,
    rows: Seq<Seq<char>>,
    meta: FileMeta,
    show_metadata: bool,
    show_schema: bool,
    sep: Seq<char>,
    format_sql: bool,
    pretty: bool,
) -> bool {
    exists|schema: Seq<char>|
        #![trigger is_schema_block(schema, rows, format_sql, pretty)]
        is_schema_block(schema, rows, format_sql, pretty) && block == block_text(
            path,
            if renderable(meta) {
                Some(meta_block(meta))
            } else {
                None
            },
            schema,
            show_metadata,
            show_schema,
            sep,
        )
}

/// The block printed for a file that carries the signature. `rows` holds
/// the definitions read from its catalog, or `None` where the database could
/// not be opened or queried: such a file gets no block.
pub fn file_block(path: &str, rows: &Option<Vec<String>>, meta: &FileMeta, opt: &Options) -> (r:
    Option<String>)
    ensures
        r is Some <==> rows is Some,
        r matches Some(b) ==> is_file_block(
            b@,
            path@,
            views_of_strings(rows->0@),
            *meta,
            opt.show_metadata,
            opt.show_schema,
            opt.batch_separator@,
            opt.format_sql,
            opt.format_sql_pretty,
        ),
{
    match rows {
        None => None,
        Some(rows) => {
            let schema = schema_fmt(rows, opt.format_sql, opt.format_sql_pretty);
            let meta_text = match metadata_fmt(meta) {
                Ok(m) => Some(m),
                Err(_) => None,
            };
            let b = assemble_block(path, &meta_text, schema.as_str(), opt);
            assert(is_schema_block(
                schema@,
                views_of_strings(rows@),
                opt.format_sql,
                opt.format_sql_pretty,
            ));
            Some(b)
        },
    }
}

} // verus!
