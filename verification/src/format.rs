use vstd::prelude::*;

use crate::codec::res_view;
use crate::errors::MfError;
use crate::json::field_strings;
use crate::json::parse_json;
use crate::json::spec_field_strings;
use crate::json::spec_parse_json;
use crate::json::Json;
use crate::strutil::chars_of;
use crate::strutil::extend;
use crate::strutil::find_sub;
use crate::strutil::join_sub;
use crate::strutil::lemma_find_bounds;
use crate::strutil::lemma_split_nonempty;
use crate::strutil::spec_find;
use crate::strutil::spec_join;
use crate::strutil::spec_split;
use crate::strutil::split_sub;
use crate::strutil::string_of;
use crate::strutil::subvec;
use crate::strutil::to_upper;
use crate::strutil::upper_of;

verus! {

// ---------------------------------------------------------------------------
// Secondary (XML) report: character-data extraction.
// ---------------------------------------------------------------------------

/// Each part cut at its first `]]`: the texts of the character-data blocks
/// those parts open.  `None` when a closing delimiter is missing.
pub open spec fn spec_cdata_cut(parts: Seq<Seq<char>>) -> Option<Seq<Seq<char>>>
    decreases parts.len(),
{
    if parts.len() == 0 {
        Some(Seq::empty())
    } else {
        match spec_find(parts[0], "]]"@, 0) {
            None => None,
            Some(j) => match spec_cdata_cut(parts.drop_first()) {
                None => None,
                Some(rest) => Some(seq![parts[0].subrange(0, j)] + rest),
            },
        }
    }
}

/// One `<echeance` section rendered: the text of each of its `![CDATA[`
/// blocks, in order, joined by newlines.
pub open spec fn spec_section_render(section: Seq<char>) -> Option<Seq<char>> {
    match spec_cdata_cut(spec_split(section, "![CDATA["@).drop_first()) {
        None => None,
        Some(texts) => Some(spec_join(texts, "\n"@)),
    }
}

/// All sections rendered, in order.
pub open spec fn spec_sections_render(sections: Seq<Seq<char>>) -> Option<Seq<Seq<char>>>
    decreases sections.len(),
{
    if sections.len() == 0 {
        Some(Seq::empty())
    } else {
        match spec_section_render(sections[0]) {
            None => None,
            Some(r) => match spec_sections_render(sections.drop_first()) {
                None => None,
                Some(rest) => Some(seq![r] + rest),
            },
        }
    }
}

/// The pretty rendering of a secondary (XML) report: the document is split
/// at each `<echeance` marker; within every section the character-data
/// texts are joined by newlines, and the sections by a blank line.  What
/// precedes the first marker is preamble: its character-data blocks are
/// still checked, but its text is not a section and is not rendered.
/// `MalformedContent` when any character-data block, the preamble's
/// included, lacks its closing `]]`.
pub open spec fn spec_pretty_xml(doc: Seq<char>) -> Result<Seq<char>, MfError> {
    match spec_sections_render(spec_split(doc, "<echeance"@)) {
        None => Err(MfError::MalformedContent),
        Some(rs) => Ok(spec_join(rs.drop_first(), "\n\n"@)),
    }
}

/// `spec_cdata_cut` over the parts from index `i` on.
fn cdata_cut_from(parts: &Vec<Vec<char>>, i: usize) -> (r: Option<Vec<Vec<char>>>)
    requires
        i <= parts@.len(),
    ensures
        match r {
            Some(v) => spec_cdata_cut(
                parts.deep_view().subrange(i as int, parts.deep_view().len() as int),
            ) == Some(v.deep_view()),
            None => spec_cdata_cut(
                parts.deep_view().subrange(i as int, parts.deep_view().len() as int),
            ) is None,
        },
    decreases parts@.len() - i,
{
    let ghost tail = parts.deep_view().subrange(i as int, parts.deep_view().len() as int);
    if i == parts.len() {
        let r: Vec<Vec<char>> = Vec::new();
        proof {
            assert(tail.len() == 0);
            assert(r.deep_view() =~~= Seq::<Seq<char>>::empty());
        }
        Some(r)
    } else {
        proof {
            assert(tail[0] == parts.deep_view()[i as int]);
            assert(tail.drop_first() =~= parts.deep_view().subrange(
                i + 1,
                parts.deep_view().len() as int,
            ));
            assert(parts.deep_view()[i as int] =~= parts@[i as int]@);
        }
        let pat = chars_of("]]");
        match find_sub(&parts[i], &pat, 0) {
            None => None,
            Some(j) => {
                proof {
                    lemma_find_bounds(parts@[i as int]@, "]]"@, 0);
                }
                let cut = subvec(&parts[i], 0, j);
                match cdata_cut_from(parts, i + 1) {
                    None => None,
                    Some(mut rest) => {
                        rest.insert(0, cut);
                        proof {
                            assert(rest.deep_view() =~~= seq![parts.deep_view()[i as int].subrange(
                                0,
                                j as int,
                            )] + spec_cdata_cut(tail.drop_first())->Some_0);
                        }
                        Some(rest)
                    },
                }
            },
        }
    }
}

/// One section rendered, as `spec_section_render` states it.
fn render_section(section: &Vec<char>) -> (r: Option<Vec<char>>)
    ensures
        match r {
            Some(v) => spec_section_render(section@) == Some(v@),
            None => spec_section_render(section@) is None,
        },
{
    let pat = chars_of("![CDATA[");
    proof {
        reveal_strlit("![CDATA[");
        lemma_split_nonempty(section@, "![CDATA["@);
    }
    let parts = split_sub(section, &pat);
    proof {
        assert(parts.deep_view().subrange(1, parts.deep_view().len() as int) =~= spec_split(
            section@,
            "![CDATA["@,
        ).drop_first());
    }
    match cdata_cut_from(&parts, 1) {
        None => None,
        Some(texts) => {
            let sep = chars_of("\n");
            Some(join_sub(&texts, &sep))
        },
    }
}

/// Rendering keeps the number of sections.
proof fn lemma_sections_render_len(sections: Seq<Seq<char>>)
    ensures
        spec_sections_render(sections) matches Some(rs) ==> rs.len() == sections.len(),
    decreases sections.len(),
{
    if sections.len() > 0 {
        lemma_sections_render_len(sections.drop_first());
    }
}

/// `spec_sections_render` over the sections from index `i` on.
fn render_sections_from(sections: &Vec<Vec<char>>, i: usize) -> (r: Option<Vec<Vec<char>>>)
    requires
        i <= sections@.len(),
    ensures
        match r {
            Some(v) => spec_sections_render(
                sections.deep_view().subrange(i as int, sections.deep_view().len() as int),
            ) == Some(v.deep_view()),
            None => spec_sections_render(
                sections.deep_view().subrange(i as int, sections.deep_view().len() as int),
            ) is None,
        },
    decreases sections@.len() - i,
{
    let ghost tail = sections.deep_view().subrange(i as int, sections.deep_view().len() as int);
    if i == sections.len() {
        let r: Vec<Vec<char>> = Vec::new();
        proof {
            assert(tail.len() == 0);
            assert(r.deep_view() =~~= Seq::<Seq<char>>::empty());
        }
        Some(r)
    } else {
        proof {
            assert(tail[0] == sections.deep_view()[i as int]);
            assert(tail.drop_first() =~= sections.deep_view().subrange(
                i + 1,
                sections.deep_view().len() as int,
            ));
            assert(sections.deep_view()[i as int] =~= sections@[i as int]@);
        }
        match render_section(&sections[i]) {
            None => None,
            Some(one) => match render_sections_from(sections, i + 1) {
                None => None,
                Some(mut rest) => {
                    rest.insert(0, one);
                    proof {
                        assert(rest.deep_view() =~~= seq![spec_section_render(
                            sections.deep_view()[i as int],
                        )->Some_0] + spec_sections_render(tail.drop_first())->Some_0);
                    }
                    Some(rest)
                },
            },
        }
    }
}

/// Renders a secondary (XML) report for pretty output.
pub fn pretty_xml(doc: &str) -> (r: Result<String, MfError>)
    ensures
        res_view(r) == spec_pretty_xml(doc@),
{
    let cs = chars_of(doc);
    let pat = chars_of("<echeance");
    proof {
        reveal_strlit("<echeance");
        lemma_split_nonempty(cs@, "<echeance"@);
    }
    let sections = split_sub(&cs, &pat);
    proof {
        assert(sections.deep_view().subrange(0, sections.deep_view().len() as int) =~= spec_split(
            cs@,
            "<echeance"@,
        ));
    }
    match render_sections_from(&sections, 0) {
        None => Err(MfError::MalformedContent),
        Some(mut rs) => {
            proof {
                lemma_sections_render_len(spec_split(cs@, "<echeance"@));
            }
            let _preamble = rs.remove(0);
            proof {
                assert(rs.deep_view() =~~= spec_sections_render(
                    spec_split(cs@, "<echeance"@),
                )->Some_0.drop_first());
            }
            let sep = chars_of("\n\n");
            let joined = join_sub(&rs, &sep);
            Ok(string_of(&joined))
        },
    }
}

// ---------------------------------------------------------------------------
// Primary (JSON) report.
// ---------------------------------------------------------------------------

/// The first and second entry of the report's `text_bloc_item` array, when
/// both exist.
pub open spec fn spec_blocs(v: Json) -> Option<(Json, Json)> {
    match v.spec_get("text_bloc_item"@) {
        None => None,
        Some(blocs) => match (blocs.spec_at(0), blocs.spec_at(1)) {
            (Some(b0), Some(b1)) => Some((b0, b1)),
            _ => None,
        },
    }
}

/// The `key` strings of a block's `text_items` entries, when the block has
/// a `text_items` array every element of which carries a string `key`.
pub open spec fn spec_bloc_items(b: Json, key: Seq<char>) -> Option<Seq<Seq<char>>> {
    match b.spec_get("text_items"@) {
        None => None,
        Some(items) => match items {
            Json::Arr(v) => spec_field_strings(v@, key),
            _ => None,
        },
    }
}

/// The pretty content of a parsed primary report: the report title, the
/// first block's item titles joined by newlines, the second block's title
/// upper-cased, and the second block's item texts joined by newlines, the
/// four pieces separated by blank lines.
pub open spec fn spec_json_content(v: Json) -> Option<Seq<char>> {
    match (v.spec_field_str("report_title"@), spec_blocs(v)) {
        (Some(title), Some((b0, b1))) => match (
            spec_bloc_items(b0, "title"@),
            b1.spec_field_str("bloc_title"@),
            spec_bloc_items(b1, "text"@),
        ) {
            (Some(titles), Some(heading), Some(texts)) => Some(
                title + "\n\n"@ + spec_join(titles, "\n"@) + "\n\n\n"@ + upper_of(heading) + "\n\n"@
                    + spec_join(texts, "\n"@) + "\n\n"@,
            ),
            _ => None,
        },
        _ => None,
    }
}

/// The pretty rendering of a primary (JSON) report.  `MalformedContent`
/// when the document does not parse or lacks the expected fields or array
/// shape.
pub open spec fn spec_pretty_json(doc: Seq<char>) -> Result<Seq<char>, MfError> {
    match spec_parse_json(doc) {
        Err(_) => Err(MfError::MalformedContent),
        Ok(v) => match spec_json_content(v) {
            None => Err(MfError::MalformedContent),
            Some(c) => Ok(c),
        },
    }
}

/// The `key` strings of a block's `text_items` entries.
fn bloc_items(b: &Json, key: &str) -> (r: Option<Vec<Vec<char>>>)
    ensures
        match r {
            Some(v) => spec_bloc_items(*b, key@) == Some(v.deep_view()),
            None => spec_bloc_items(*b, key@) is None,
        },
{
    match b.get("text_items") {
        None => None,
        Some(items) => match items {
            Json::Arr(v) => {
                proof {
                    assert(*items == Json::Arr(*v));
                }
                field_strings(v, key)
            },
            _ => None,
        },
    }
}

/// Renders a primary (JSON) report for pretty output.
pub fn pretty_json(doc: &str) -> (r: Result<String, MfError>)
    ensures
        res_view(r) == spec_pretty_json(doc@),
{
    let v = match parse_json(doc) {
        Err(_) => {
            return Err(MfError::MalformedContent);
        },
        Ok(v) => v,
    };
    let title = match v.field_str("report_title") {
        None => {
            return Err(MfError::MalformedContent);
        },
        Some(t) => t,
    };
    let blocs = match v.get("text_bloc_item") {
        None => {
            return Err(MfError::MalformedContent);
        },
        Some(b) => b,
    };
    let b0 = match blocs.at(0) {
        None => {
            return Err(MfError::MalformedContent);
        },
        Some(b) => b,
    };
    let b1 = match blocs.at(1) {
        None => {
            return Err(MfError::MalformedContent);
        },
        Some(b) => b,
    };
    let titles = match bloc_items(b0, "title") {
        None => {
            return Err(MfError::MalformedContent);
        },
        Some(t) => t,
    };
    let heading = match b1.field_str("bloc_title") {
        None => {
            return Err(MfError::MalformedContent);
        },
        Some(h) => h,
    };
    let texts = match bloc_items(b1, "text") {
        None => {
            return Err(MfError::MalformedContent);
        },
        Some(t) => t,
    };
    let newline = chars_of("\n");
    let blank = chars_of("\n\n");
    let double_blank = chars_of("\n\n\n");
    let mut out = chars_of(title.as_str());
    extend(&mut out, &blank);
    let titles_joined = join_sub(&titles, &newline);
    extend(&mut out, &titles_joined);
    extend(&mut out, &double_blank);
    let upper = to_upper(heading.as_str());
    let upper_cs = chars_of(upper.as_str());
    extend(&mut out, &upper_cs);
    extend(&mut out, &blank);
    let texts_joined = join_sub(&texts, &newline);
    extend(&mut out, &texts_joined);
    extend(&mut out, &blank);
    proof {
        assert(out@ =~= spec_json_content(v)->Some_0);
    }
    Ok(string_of(&out))
}

} // verus!
