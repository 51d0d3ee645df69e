//! Prompt rendering: `{{field}}` placeholders in a template are replaced
//! by the row's values, field by field in row order.
//!
//! String values substitute their raw text; any other value substitutes
//! its canonical JSON form.

use crate::json::JsonValue;
use crate::json::spec_ser;
use vstd::prelude::*;

verus! {

/// One input row: an ordered mapping from field name to value.
/// Keys are expected to be unique; rendering applies them in order.
pub struct Row(pub Vec<(Vec<u8>, JsonValue)>);

impl Row {
    /// The row's fields, in order.
    pub open spec fn fields(self) -> Seq<(Vec<u8>, JsonValue)> {
        self.0@
    }

    /// Field names appear at most once.
    pub open spec fn keys_unique(self) -> bool {
        forall|a: int, b: int|
            0 <= a < b < self.fields().len() ==> (#[trigger] self.fields()[a]).0@ != (
            #[trigger] self.fields()[b]).0@
    }
}

/// Every occurrence of `from` in `s` replaced by `to`, scanning left to
/// right without re-scanning replacements. An empty `from` replaces
/// nothing.
pub open spec fn spec_replace(s: Seq<u8>, from: Seq<u8>, to: Seq<u8>) -> Seq<u8>
    decreases s.len(),
{
    if from.len() == 0 {
        s
    } else if s.len() < from.len() {
        s
    } else if s.subrange(0, from.len() as int) == from {
        to + spec_replace(s.skip(from.len() as int), from, to)
    } else {
        seq![s[0]] + spec_replace(s.skip(1), from, to)
    }
}

/// The placeholder `{{key}}` for a field name.
pub open spec fn spec_placeholder(key: Seq<u8>) -> Seq<u8> {
    seq![0x7bu8, 0x7bu8] + key + seq![0x7du8, 0x7du8]
}

/// The text a value substitutes: a string's raw text, any other value's
/// canonical JSON form.
pub open spec fn spec_value_text(v: JsonValue) -> Seq<u8> {
    match v {
        JsonValue::Str(s) => s@,
        _ => spec_ser(v),
    }
}

/// The template after substituting the placeholders of the first `i`
/// fields, in order.
pub open spec fn spec_render_prefix(template: Seq<u8>, fields: Seq<(Vec<u8>, JsonValue)>, i: int) -> Seq<
    u8,
>
    decreases i,
{
    if i <= 0 {
        template
    } else {
        spec_replace(
            spec_render_prefix(template, fields, i - 1),
            spec_placeholder(fields[i - 1].0@),
            spec_value_text(fields[i - 1].1),
        )
    }
}

/// The fully rendered prompt for a template and a row.
pub open spec fn spec_render(template: Seq<u8>, fields: Seq<(Vec<u8>, JsonValue)>) -> Seq<u8> {
    spec_render_prefix(template, fields, fields.len() as int)
}

/// Whether `s[i..]` starts with `from`.
fn match_at(s: &Vec<u8>, i: usize, from: &Vec<u8>) -> (r: bool)
    requires
        i + from@.len() <= s@.len(),
    ensures
        r <==> s@.subrange(i as int, i + from@.len()) == from@,
{
    let n: usize = s.len();
    let mut j: usize = 0;
    while j < from.len()
        invariant
            j <= from@.len(),
            i + from@.len() <= s@.len(),
            n == s@.len(),
            forall|k: int| 0 <= k < j ==> s@[i + k] == from@[k],
        decreases from@.len() - j,
    {
        if s[i + j] != from[j] {
            proof {
                assert(s@.subrange(i as int, i + from@.len())[j as int] == s@[i + j]);
            }
            return false;
        }
        j = j + 1;
    }
    proof {
        assert(s@.subrange(i as int, i + from@.len()) =~= from@);
    }
    true
}

/// Every occurrence of `from` in `s` replaced by `to`, scanning left to
/// right; replaced text is not rescanned.
pub fn replace_all(s: &Vec<u8>, from: &Vec<u8>, to: &Vec<u8>) -> (out: Vec<u8>)
    requires
        from@.len() > 0,
    ensures
        out@ == spec_replace(s@, from@, to@),
{
    let mut out: Vec<u8> = Vec::new();
    let mut i: usize = 0;
    proof {
        assert(s@.skip(0) =~= s@);
        assert(Seq::<u8>::empty() + spec_replace(s@, from@, to@) =~= spec_replace(s@, from@, to@));
    }
    while i < s.len()
        invariant
            i <= s@.len(),
            from@.len() > 0,
            spec_replace(s@, from@, to@) == out@ + spec_replace(s@.skip(i as int), from@, to@),
        decreases s@.len() - i,
    {
        let ghost rest = s@.skip(i as int);
        if from.len() <= s.len() - i && match_at(s, i, from) {
            proof {
                assert(rest.subrange(0, from@.len() as int) =~= s@.subrange(
                    i as int,
                    i + from@.len(),
                ));
                assert(rest.skip(from@.len() as int) =~= s@.skip(i + from@.len()));
            }
            let ghost out0 = out@;
            out.extend_from_slice(to.as_slice());
            proof {
                assert(out@ =~= out0 + to@);
            }
            i = i + from.len();
        } else {
            proof {
                if from@.len() <= rest.len() {
                    assert(rest.subrange(0, from@.len() as int) =~= s@.subrange(
                        i as int,
                        i + from@.len(),
                    ));
                }
                assert(rest.skip(1) =~= s@.skip(i + 1));
                assert(rest =~= seq![rest[0]] + rest.skip(1));
            }
            out.push(s[i]);
            i = i + 1;
        }
    }
    proof {
        assert(s@.skip(s@.len() as int) =~= Seq::<u8>::empty());
    }
    out
}

/// The text a value substitutes into a prompt: a string's raw text, any
/// other value's canonical JSON form.
pub fn value_text(v: &JsonValue) -> (r: Vec<u8>)
    ensures
        r@ == spec_value_text(*v),
{
    match v {
        JsonValue::Str(s) => {
            let mut out: Vec<u8> = Vec::new();
            out.extend_from_slice(s.as_slice());
            proof {
                assert(out@ =~= s@);
            }
            out
        },
        _ => v.to_bytes(),
    }
}

/// Renders the prompt for one row: each field's `{{name}}` placeholder
/// in the template is replaced by that field's text, in row order.
pub fn render_prompt(template: &Vec<u8>, row: &Row) -> (out: Vec<u8>)
    ensures
        out@ == spec_render(template@, row.fields()),
{
    let mut cur: Vec<u8> = Vec::new();
    cur.extend_from_slice(template.as_slice());
    proof {
        assert(cur@ =~= template@);
    }
    let mut i: usize = 0;
    while i < row.0.len()
        invariant
            i <= row.fields().len(),
            cur@ == spec_render_prefix(template@, row.fields(), i as int),
        decreases row.fields().len() - i,
    {
        let mut needle: Vec<u8> = Vec::new();
        needle.push(0x7b);
        needle.push(0x7b);
        needle.extend_from_slice(row.0[i].0.as_slice());
        needle.push(0x7d);
        needle.push(0x7d);
        proof {
            assert(needle@ =~= spec_placeholder(row.fields()[i as int].0@));
        }
        let text = value_text(&row.0[i].1);
        cur = replace_all(&cur, &needle, &text);
        i = i + 1;
    }
    cur
}

} // verus!
