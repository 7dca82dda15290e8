use vstd::prelude::*;
use vstd::string::*;
use crate::chars::{join_spaced, str_eq, trim_seq, trim_str};
use crate::json::{
    get_field, jview_seq, text_field_of, text_field_or_empty, JsonLite, JsonView,
};

verus! {

/// The text one content entry contributes: the trimmed `text` field
/// of an object tagged `input_text` or `output_text`, when that is
/// non-empty.
pub open spec fn entry_text(e: JsonView) -> Option<Seq<char>> {
    let t = text_field_or_empty(e, "type"@);
    if t == "input_text"@ || t == "output_text"@ {
        match get_field(e, "text"@) {
            Some(JsonView::Text(s)) => if trim_seq(s).len() > 0 {
                Some(trim_seq(s))
            } else {
                None
            },
            _ => None,
        }
    } else {
        None
    }
}

/// The texts the entries contribute, in order.
pub open spec fn collect_texts(entries: Seq<JsonView>) -> Seq<Seq<char>>
    decreases entries.len(),
{
    if entries.len() == 0 {
        Seq::empty()
    } else {
        let rest = collect_texts(entries.drop_last());
        match entry_text(entries.last()) {
            Some(t) => rest.push(t),
            None => rest,
        }
    }
}

/// Flat display text of a message `content` value: the contributed
/// texts joined with single spaces and trimmed; empty for anything
/// that is not an array.
pub open spec fn extract_text(content: JsonView) -> Seq<char> {
    match content {
        JsonView::Array(entries) => trim_seq(join_spaced(collect_texts(entries))),
        _ => Seq::empty(),
    }
}

fn entry_text_exec(e: &JsonLite) -> (r: Option<String>)
    ensures
        match r {
            Option::Some(s) => entry_text(e@) == Some(s@),
            Option::None => entry_text(e@) is None,
        },
{
    proof {
        reveal_strlit("input_text");
        reveal_strlit("output_text");
    }
    let ty_match = match text_field_of(e, "type") {
        Option::Some(s) => str_eq(s.as_str(), "input_text") || str_eq(s.as_str(), "output_text"),
        Option::None => false,
    };
    if !ty_match {
        assert(text_field_or_empty(e@, "type"@) != "input_text"@ && text_field_or_empty(
            e@,
            "type"@,
        ) != "output_text"@) by {
            assert("input_text"@.len() == 10);
            assert("output_text"@.len() == 11);
        }
        return None;
    }
    match text_field_of(e, "text") {
        Option::Some(s) => {
            let tr = trim_str(s.as_str());
            if tr.unicode_len() > 0 {
                Some(String::from_str(tr))
            } else {
                None
            }
        },
        Option::None => None,
    }
}

fn join_with_space(parts: &Vec<String>) -> (r: String)
    ensures
        r@ == join_spaced(parts@.map_values(|p: String| p@)),
{
    let ghost pv = parts@.map_values(|p: String| p@);
    let mut out = String::new();
    let n = parts.len();
    let mut i: usize = 0;
    while i < n
        invariant
            n == parts@.len(),
            i <= n,
            pv == parts@.map_values(|p: String| p@),
            out@ == join_spaced(pv.subrange(0, i as int)),
        decreases n - i,
    {
        if i > 0 {
            crate::chars::push_char(&mut out, ' ');
        }
        out.append(parts[i].as_str());
        proof {
            let prefix = pv.subrange(0, i + 1);
            assert(prefix.drop_last() =~= pv.subrange(0, i as int));
            assert(prefix.last() == pv[i as int]);
            if i == 0 {
                assert(join_spaced(prefix) == pv[0]);
                assert(out@ == Seq::<char>::empty() + pv[0]);
                assert(out@ =~= join_spaced(prefix));
            } else {
                assert(join_spaced(prefix) == join_spaced(pv.subrange(0, i as int)) + seq![' ']
                    + pv[i as int]);
                assert(out@ =~= join_spaced(prefix));
            }
        }
        i += 1;
    }
    proof {
        assert(pv.subrange(0, n as int) =~= pv);
    }
    out
}

/// Reduces a message `content` value to flat display text.
pub fn extract_message_text(content: &JsonLite) -> (r: String)
    ensures
        r@ == extract_text(content@),
{
    match content {
        JsonLite::Array(entries) => {
            let ghost ev = jview_seq(entries@);
            let mut parts: Vec<String> = Vec::new();
            let n = entries.len();
            let mut i: usize = 0;
            while i < n
                invariant
                    n == entries@.len(),
                    i <= n,
                    ev == jview_seq(entries@),
                    parts@.map_values(|p: String| p@) == collect_texts(ev.subrange(0, i as int)),
                decreases n - i,
            {
                let got = entry_text_exec(&entries[i]);
                proof {
                    assert(ev[i as int] == entries@[i as int]@);
                    assert(ev.subrange(0, i + 1).drop_last() =~= ev.subrange(0, i as int));
                    assert(ev.subrange(0, i + 1).last() == ev[i as int]);
                }
                match got {
                    Option::Some(t) => {
                        parts.push(t);
                        proof {
                            assert(parts@.map_values(|p: String| p@) =~= collect_texts(
                                ev.subrange(0, i + 1),
                            ));
                        }
                    },
                    Option::None => {
                        assert(parts@.map_values(|p: String| p@) == collect_texts(
                            ev.subrange(0, i + 1),
                        ));
                    },
                }
                i += 1;
            }
            proof {
                assert(ev.subrange(0, n as int) =~= ev);
                assert(content@ == JsonView::Array(ev));
            }
            let joined = join_with_space(&parts);
            let trimmed = trim_str(joined.as_str());
            String::from_str(trimmed)
        },
        _ => {
            assert(extract_text(content@) =~= Seq::<char>::empty());
            String::new()
        },
    }
}

} // verus!
