//! The engine's model of JSON values and a serializer for them.
//!
//! Numbers keep their literal text, so a value round-trips exactly and the
//! engine needs no floating point. Strings hold raw (unescaped) UTF-8 bytes;
//! the serializer escapes them.

use vstd::prelude::*;

verus! {

/// A JSON-like value as submitted rows, configuration schemas and audit
/// records hold it.
pub enum JsonValue {
    Null,
    Bool(bool),
    /// The literal text of a JSON number, e.g. `-12.5e3`.
    Num(Vec<u8>),
    /// The raw (unescaped) bytes of a string value.
    Str(Vec<u8>),
    Arr(Vec<JsonValue>),
    Obj(Vec<(Vec<u8>, JsonValue)>),
}

/// The serialized form of one byte inside a JSON string literal.
pub open spec fn spec_escape_byte(b: u8) -> Seq<u8> {
    if b == 0x22 {
        seq![0x5c, 0x22]
    } else if b == 0x5c {
        seq![0x5c, 0x5c]
    } else if b == 0x08 {
        seq![0x5c, 0x62]
    } else if b == 0x0c {
        seq![0x5c, 0x66]
    } else if b == 0x0a {
        seq![0x5c, 0x6e]
    } else if b == 0x0d {
        seq![0x5c, 0x72]
    } else if b == 0x09 {
        seq![0x5c, 0x74]
    } else if b < 0x20 {
        seq![0x5c, 0x75, 0x30, 0x30, spec_hex_digit((b / 16) as u8), spec_hex_digit((b % 16) as u8)]
    } else {
        seq![b]
    }
}

/// The lower-case hex digit for a nibble.
pub open spec fn spec_hex_digit(n: u8) -> u8 {
    if n < 10 {
        (0x30 + n) as u8
    } else {
        (0x57 + n) as u8
    }
}

/// The serialized form of the contents of a JSON string literal.
pub open spec fn spec_escape(s: Seq<u8>) -> Seq<u8>
    decreases s.len(),
{
    if s.len() == 0 {
        Seq::empty()
    } else {
        spec_escape_byte(s[0]) + spec_escape(s.skip(1))
    }
}

/// The serialized bytes of a JSON value.
pub open spec fn spec_ser(v: JsonValue) -> Seq<u8>
    decreases v,
{
    match v {
        JsonValue::Null => seq![0x6e, 0x75, 0x6c, 0x6c],
        JsonValue::Bool(b) => if b {
            seq![0x74, 0x72, 0x75, 0x65]
        } else {
            seq![0x66, 0x61, 0x6c, 0x73, 0x65]
        },
        JsonValue::Num(t) => t@,
        JsonValue::Str(s) => seq![0x22u8] + spec_escape(s@) + seq![0x22u8],
        JsonValue::Arr(xs) => seq![0x5bu8] + spec_ser_arr(xs@) + seq![0x5du8],
        JsonValue::Obj(ps) => seq![0x7bu8] + spec_ser_obj(ps@) + seq![0x7du8],
    }
}

/// The serialized, comma-separated elements of a JSON array.
pub open spec fn spec_ser_arr(xs: Seq<JsonValue>) -> Seq<u8>
    decreases xs,
{
    if xs.len() == 0 {
        Seq::empty()
    } else if xs.len() == 1 {
        spec_ser(xs[0])
    } else {
        spec_ser(xs[0]) + seq![0x2cu8] + spec_ser_arr(xs.skip(1))
    }
}

/// The serialized, comma-separated members of a JSON object.
pub open spec fn spec_ser_obj(ps: Seq<(Vec<u8>, JsonValue)>) -> Seq<u8>
    decreases ps,
{
    if ps.len() == 0 {
        Seq::empty()
    } else if ps.len() == 1 {
        spec_ser_member(ps[0])
    } else {
        spec_ser_member(ps[0]) + seq![0x2cu8] + spec_ser_obj(ps.skip(1))
    }
}

/// One serialized `"key":value` member of a JSON object.
pub open spec fn spec_ser_member(p: (Vec<u8>, JsonValue)) -> Seq<u8>
    decreases p,
{
    seq![0x22u8] + spec_escape(p.0@) + seq![0x22u8, 0x3au8] + spec_ser(p.1)
}

/// The lower-case hex digit for a nibble.
pub fn hex_digit(n: u8) -> (r: u8)
    requires
        n < 16,
    ensures
        r == spec_hex_digit(n),
{
    if n < 10 {
        0x30 + n
    } else {
        0x57 + n
    }
}

/// Appends the escaped form of one string-literal byte to `out`.
fn write_escaped_byte(b: u8, out: &mut Vec<u8>)
    ensures
        final(out)@ == old(out)@ + spec_escape_byte(b),
{
    if b == 0x22 {
        out.push(0x5c);
        out.push(0x22);
    } else if b == 0x5c {
        out.push(0x5c);
        out.push(0x5c);
    } else if b == 0x08 {
        out.push(0x5c);
        out.push(0x62);
    } else if b == 0x0c {
        out.push(0x5c);
        out.push(0x66);
    } else if b == 0x0a {
        out.push(0x5c);
        out.push(0x6e);
    } else if b == 0x0d {
        out.push(0x5c);
        out.push(0x72);
    } else if b == 0x09 {
        out.push(0x5c);
        out.push(0x74);
    } else if b < 0x20 {
        out.push(0x5c);
        out.push(0x75);
        out.push(0x30);
        out.push(0x30);
        let hi = hex_digit(b / 16);
        out.push(hi);
        let lo = hex_digit(b % 16);
        out.push(lo);
    } else {
        out.push(b);
    }
    assert(out@ =~= old(out)@ + spec_escape_byte(b));
}

/// Appends the escaped contents of a string literal to `out`.
fn write_escaped(s: &Vec<u8>, out: &mut Vec<u8>)
    ensures
        final(out)@ == old(out)@ + spec_escape(s@),
{
    let mut i: usize = 0;
    while i < s.len()
        invariant
            i <= s.len(),
            out@ == old(out)@ + spec_escape(s@.take(i as int)),
        decreases s.len() - i,
    {
        proof {
            lemma_escape_take_step(s@, i as int);
        }
        write_escaped_byte(s[i], out);
        i = i + 1;
    }
    proof {
        assert(s@.take(s@.len() as int) =~= s@);
    }
}

/// Escaping one more byte extends the escaped prefix by that byte's form.
proof fn lemma_escape_take_step(s: Seq<u8>, i: int)
    requires
        0 <= i < s.len(),
    ensures
        spec_escape(s.take(i + 1)) == spec_escape(s.take(i)) + spec_escape_byte(s[i]),
    decreases i + 1,
{
    lemma_escape_snoc(s.take(i), s[i]);
    assert(s.take(i).push(s[i]) =~= s.take(i + 1));
}

/// Escaping `s + [b]` appends the escaped form of `b`.
proof fn lemma_escape_snoc(s: Seq<u8>, b: u8)
    ensures
        spec_escape(s.push(b)) == spec_escape(s) + spec_escape_byte(b),
    decreases s.len(),
{
    if s.len() == 0 {
        assert(s.push(b)[0] == b);
        assert(s.push(b).skip(1) =~= Seq::<u8>::empty());
        assert(spec_escape(Seq::<u8>::empty()) == Seq::<u8>::empty());
        assert(spec_escape(s.push(b)) =~= spec_escape_byte(b));
        assert(spec_escape(s) + spec_escape_byte(b) =~= spec_escape_byte(b));
    } else {
        assert(s.push(b).skip(1) =~= s.skip(1).push(b));
        lemma_escape_snoc(s.skip(1), b);
        assert(spec_escape(s.push(b)) =~= spec_escape(s) + spec_escape_byte(b));
    }
}

impl JsonValue {
    /// Appends the serialized bytes of this value to `out`.
    pub fn write(&self, out: &mut Vec<u8>)
        ensures
            final(out)@ == old(out)@ + spec_ser(*self),
        decreases *self,
    {
        match self {
            JsonValue::Null => {
                out.push(0x6e);
                out.push(0x75);
                out.push(0x6c);
                out.push(0x6c);
                assert(out@ =~= old(out)@ + spec_ser(*self));
            },
            JsonValue::Bool(b) => {
                if *b {
                    out.push(0x74);
                    out.push(0x72);
                    out.push(0x75);
                    out.push(0x65);
                } else {
                    out.push(0x66);
                    out.push(0x61);
                    out.push(0x6c);
                    out.push(0x73);
                    out.push(0x65);
                }
                assert(out@ =~= old(out)@ + spec_ser(*self));
            },
            JsonValue::Num(t) => {
                let mut j: usize = 0;
                while j < t.len()
                    invariant
                        j <= t.len(),
                        out@ == old(out)@ + t@.take(j as int),
                    decreases t.len() - j,
                {
                    out.push(t[j]);
                    assert(out@ =~= old(out)@ + t@.take(j + 1));
                    j = j + 1;
                }
                assert(t@.take(t@.len() as int) =~= t@);
            },
            JsonValue::Str(s) => {
                out.push(0x22);
                write_escaped(s, out);
                out.push(0x22);
                assert(out@ =~= old(out)@ + spec_ser(*self));
            },
            JsonValue::Arr(xs) => {
                out.push(0x5b);
                let mut i: usize = 0;
                while i < xs.len()
                    invariant
                        *self == JsonValue::Arr(*xs),
                        i <= xs.len(),
                        out@ == old(out)@ + seq![0x5bu8] + spec_ser_arr_prefix(xs@, i as int),
                    decreases xs.len() - i,
                {
                    if i > 0 {
                        out.push(0x2c);
                    }
                    proof {
                        assert((*self)->Arr_0 == *xs);
                        assert(decreases_to!(*self => (*self)->Arr_0));
                        assert(decreases_to!(*xs => xs@));
                        assert(decreases_to!(xs@ => xs@[i as int]));
                        assert(decreases_to!(*self => xs@[i as int]));
                    }
                    xs[i].write(out);
                    proof {
                        lemma_ser_arr_prefix_step(xs@, i as int);
                        assert(out@ =~= old(out)@ + seq![0x5bu8] + spec_ser_arr_prefix(
                            xs@,
                            i + 1,
                        ));
                    }
                    i = i + 1;
                }
                out.push(0x5d);
                proof {
                    lemma_ser_arr_prefix_full(xs@);
                    assert(out@ =~= old(out)@ + spec_ser(*self));
                }
            },
            JsonValue::Obj(ps) => {
                out.push(0x7b);
                let mut i: usize = 0;
                while i < ps.len()
                    invariant
                        *self == JsonValue::Obj(*ps),
                        i <= ps.len(),
                        out@ == old(out)@ + seq![0x7bu8] + spec_ser_obj_prefix(ps@, i as int),
                    decreases ps.len() - i,
                {
                    if i > 0 {
                        out.push(0x2c);
                    }
                    out.push(0x22);
                    write_escaped(&ps[i].0, out);
                    out.push(0x22);
                    out.push(0x3a);
                    proof {
                        assert((*self)->Obj_0 == *ps);
                        assert(decreases_to!(*self => (*self)->Obj_0));
                        assert(decreases_to!(*ps => ps@));
                        assert(decreases_to!(ps@ => ps@[i as int]));
                        assert(decreases_to!(ps@[i as int] => ps@[i as int].1));
                        assert(decreases_to!(*self => ps@[i as int].1));
                    }
                    ps[i].1.write(out);
                    proof {
                        lemma_ser_obj_prefix_step(ps@, i as int);
                        assert(out@ =~= old(out)@ + seq![0x7bu8] + spec_ser_obj_prefix(
                            ps@,
                            i + 1,
                        ));
                    }
                    i = i + 1;
                }
                out.push(0x7d);
                proof {
                    lemma_ser_obj_prefix_full(ps@);
                    assert(out@ =~= old(out)@ + spec_ser(*self));
                }
            },
        }
    }

    /// The serialized bytes of this value.
    pub fn to_bytes(&self) -> (r: Vec<u8>)
        ensures
            r@ == spec_ser(*self),
    {
        let mut out: Vec<u8> = Vec::new();
        self.write(&mut out);
        out
    }
}

/// The serialized first `i` elements of an array body, commas included.
pub open spec fn spec_ser_arr_prefix(xs: Seq<JsonValue>, i: int) -> Seq<u8>
    decreases i,
{
    if i <= 0 {
        Seq::empty()
    } else if i == 1 {
        spec_ser(xs[0])
    } else {
        spec_ser_arr_prefix(xs, i - 1) + seq![0x2cu8] + spec_ser(xs[i - 1])
    }
}

/// The serialized first `i` members of an object body, commas included.
pub open spec fn spec_ser_obj_prefix(ps: Seq<(Vec<u8>, JsonValue)>, i: int) -> Seq<u8>
    decreases i,
{
    if i <= 0 {
        Seq::empty()
    } else if i == 1 {
        spec_ser_member(ps[0])
    } else {
        spec_ser_obj_prefix(ps, i - 1) + seq![0x2cu8] + spec_ser_member(ps[i - 1])
    }
}

/// Extending the prefix by one element appends a comma (after the first)
/// and that element's serialization.
proof fn lemma_ser_arr_prefix_step(xs: Seq<JsonValue>, i: int)
    requires
        0 <= i < xs.len(),
    ensures
        i == 0 ==> spec_ser_arr_prefix(xs, 1) == spec_ser(xs[0]),
        i > 0 ==> spec_ser_arr_prefix(xs, i + 1) == spec_ser_arr_prefix(xs, i) + seq![0x2cu8]
            + spec_ser(xs[i]),
{
}

/// The full prefix of an array body equals its serialization.
proof fn lemma_ser_arr_prefix_full(xs: Seq<JsonValue>)
    ensures
        spec_ser_arr_prefix(xs, xs.len() as int) == spec_ser_arr(xs),
    decreases xs.len(),
{
    if xs.len() == 0 {
    } else if xs.len() == 1 {
    } else {
        lemma_ser_arr_prefix_full(xs.drop_last());
        lemma_ser_arr_last(xs);
        assert(spec_ser_arr_prefix(xs.drop_last(), xs.len() - 1) == spec_ser_arr_prefix(
            xs,
            xs.len() - 1,
        )) by {
            lemma_ser_arr_prefix_agree(xs.drop_last(), xs, xs.len() - 1);
        }
    }
}

/// Serializing an array body splits off its last element.
proof fn lemma_ser_arr_last(xs: Seq<JsonValue>)
    requires
        xs.len() >= 2,
    ensures
        spec_ser_arr(xs) == spec_ser_arr(xs.drop_last()) + seq![0x2cu8] + spec_ser(xs.last()),
    decreases xs.len(),
{
    if xs.len() == 2 {
        assert(xs.skip(1) =~= seq![xs[1]]);
        assert(xs.drop_last() =~= seq![xs[0]]);
        assert(spec_ser_arr(xs.skip(1)) == spec_ser(xs[1]));
        assert(spec_ser_arr(xs.drop_last()) == spec_ser(xs[0]));
        assert(spec_ser_arr(xs) =~= spec_ser_arr(xs.drop_last()) + seq![0x2cu8] + spec_ser(
            xs.last(),
        ));
    } else {
        lemma_ser_arr_last(xs.skip(1));
        assert(xs.skip(1).drop_last() =~= xs.drop_last().skip(1));
        assert(xs.skip(1).last() == xs.last());
        assert(xs.drop_last()[0] == xs[0]);
        assert(xs.drop_last().len() >= 2);
        assert(spec_ser_arr(xs.drop_last()) == spec_ser(xs[0]) + seq![0x2cu8] + spec_ser_arr(
            xs.drop_last().skip(1),
        ));
        assert(spec_ser_arr(xs) =~= spec_ser_arr(xs.drop_last()) + seq![0x2cu8] + spec_ser(
            xs.last(),
        ));
    }
}

/// Prefix serialization reads only the first `i` elements.
proof fn lemma_ser_arr_prefix_agree(xs: Seq<JsonValue>, ys: Seq<JsonValue>, i: int)
    requires
        i <= xs.len(),
        i <= ys.len(),
        forall|j: int| 0 <= j < i ==> xs[j] == ys[j],
    ensures
        spec_ser_arr_prefix(xs, i) == spec_ser_arr_prefix(ys, i),
    decreases i,
{
    if i > 1 {
        lemma_ser_arr_prefix_agree(xs, ys, i - 1);
    }
}

/// Extending the prefix by one member appends a comma (after the first)
/// and that member's serialization.
proof fn lemma_ser_obj_prefix_step(ps: Seq<(Vec<u8>, JsonValue)>, i: int)
    requires
        0 <= i < ps.len(),
    ensures
        i == 0 ==> spec_ser_obj_prefix(ps, 1) == spec_ser_member(ps[0]),
        i > 0 ==> spec_ser_obj_prefix(ps, i + 1) == spec_ser_obj_prefix(ps, i) + seq![0x2cu8]
            + spec_ser_member(ps[i]),
{
}

/// The full prefix of an object body equals its serialization.
proof fn lemma_ser_obj_prefix_full(ps: Seq<(Vec<u8>, JsonValue)>)
    ensures
        spec_ser_obj_prefix(ps, ps.len() as int) == spec_ser_obj(ps),
    decreases ps.len(),
{
    if ps.len() == 0 {
    } else if ps.len() == 1 {
    } else {
        lemma_ser_obj_prefix_full(ps.drop_last());
        lemma_ser_obj_last(ps);
        assert(spec_ser_obj_prefix(ps.drop_last(), ps.len() - 1) == spec_ser_obj_prefix(
            ps,
            ps.len() - 1,
        )) by {
            lemma_ser_obj_prefix_agree(ps.drop_last(), ps, ps.len() - 1);
        }
    }
}

/// Serializing an object body splits off its last member.
proof fn lemma_ser_obj_last(ps: Seq<(Vec<u8>, JsonValue)>)
    requires
        ps.len() >= 2,
    ensures
        spec_ser_obj(ps) == spec_ser_obj(ps.drop_last()) + seq![0x2cu8] + spec_ser_member(
            ps.last(),
        ),
    decreases ps.len(),
{
    if ps.len() == 2 {
        assert(ps.skip(1) =~= seq![ps[1]]);
        assert(ps.drop_last() =~= seq![ps[0]]);
        assert(spec_ser_obj(ps.skip(1)) == spec_ser_member(ps[1]));
        assert(spec_ser_obj(ps.drop_last()) == spec_ser_member(ps[0]));
        assert(spec_ser_obj(ps) =~= spec_ser_obj(ps.drop_last()) + seq![0x2cu8] + spec_ser_member(
            ps.last(),
        ));
    } else {
        lemma_ser_obj_last(ps.skip(1));
        assert(ps.skip(1).drop_last() =~= ps.drop_last().skip(1));
        assert(ps.skip(1).last() == ps.last());
        assert(ps.drop_last()[0] == ps[0]);
        assert(ps.drop_last().len() >= 2);
        assert(spec_ser_obj(ps.drop_last()) == spec_ser_member(ps[0]) + seq![0x2cu8]
            + spec_ser_obj(ps.drop_last().skip(1)));
        assert(spec_ser_obj(ps) =~= spec_ser_obj(ps.drop_last()) + seq![0x2cu8] + spec_ser_member(
            ps.last(),
        ));
    }
}

/// Prefix serialization reads only the first `i` members.
proof fn lemma_ser_obj_prefix_agree(ps: Seq<(Vec<u8>, JsonValue)>, qs: Seq<(Vec<u8>, JsonValue)>, i: int)
    requires
        i <= ps.len(),
        i <= qs.len(),
        forall|j: int| 0 <= j < i ==> ps[j] == qs[j],
    ensures
        spec_ser_obj_prefix(ps, i) == spec_ser_obj_prefix(qs, i),
    decreases i,
{
    if i > 1 {
        lemma_ser_obj_prefix_agree(ps, qs, i - 1);
    }
}

/// The decimal digits of `n`, most significant first.
pub open spec fn spec_dec(n: nat) -> Seq<u8>
    decreases n,
{
    if n < 10 {
        seq![(0x30 + n) as u8]
    } else {
        spec_dec(n / 10) + seq![(0x30 + (n % 10)) as u8]
    }
}

/// Writes `n` in decimal.
pub fn u64_to_dec(n: u64) -> (r: Vec<u8>)
    ensures
        r@ == spec_dec(n as nat),
    decreases n,
{
    if n < 10 {
        let mut v: Vec<u8> = Vec::new();
        v.push(0x30 + n as u8);
        proof {
            assert(v@ =~= spec_dec(n as nat));
        }
        v
    } else {
        let mut v = u64_to_dec(n / 10);
        v.push(0x30 + (n % 10) as u8);
        proof {
            assert(v@ =~= spec_dec((n / 10) as nat) + seq![(0x30 + (n as nat % 10)) as u8]);
        }
        v
    }
}

/// Decimal renderings are nonempty and all digits.
pub proof fn lemma_dec_digits(n: nat)
    ensures
        spec_dec(n).len() >= 1,
        forall|i: int| 0 <= i < spec_dec(n).len() ==> 0x30 <= #[trigger] spec_dec(n)[i] <= 0x39,
    decreases n,
{
    if n >= 10 {
        lemma_dec_digits(n / 10);
    }
}

/// A byte a JSON number literal may hold: a digit, sign, decimal point
/// or exponent mark.
pub open spec fn spec_num_byte_ok(b: u8) -> bool {
    (0x30 <= b <= 0x39) || b == 0x2d || b == 0x2b || b == 0x2e || b == 0x65 || b == 0x45
}

/// `s` holds no newline byte, so it fits on one JSON-Lines line.
pub open spec fn spec_newline_free(s: Seq<u8>) -> bool {
    forall|i: int| 0 <= i < s.len() ==> #[trigger] s[i] != 0x0a
}

impl JsonValue {
    /// A well-formed value: number literals hold only number bytes, and
    /// so do all nested values. Serializing a well-formed value yields
    /// one newline-free line.
    pub open spec fn wf(self) -> bool
        decreases self,
    {
        match self {
            JsonValue::Null => true,
            JsonValue::Bool(_) => true,
            JsonValue::Num(t) => t@.len() > 0 && forall|i: int|
                0 <= i < t@.len() ==> spec_num_byte_ok(#[trigger] t@[i]),
            JsonValue::Str(_) => true,
            JsonValue::Arr(xs) => forall|i: int| 0 <= i < xs@.len() ==> (#[trigger] xs@[i]).wf(),
            JsonValue::Obj(ps) => forall|i: int| 0 <= i < ps@.len() ==> (#[trigger] ps@[i]).1.wf(),
        }
    }
}

/// Newline-freedom is preserved by concatenation.
proof fn lemma_nf_concat(a: Seq<u8>, b: Seq<u8>)
    requires
        spec_newline_free(a),
        spec_newline_free(b),
    ensures
        spec_newline_free(a + b),
{
    assert forall|i: int| 0 <= i < (a + b).len() implies (a + b)[i] != 0x0a by {
        if i < a.len() {
            assert((a + b)[i] == a[i]);
        } else {
            assert((a + b)[i] == b[i - a.len()]);
        }
    }
}

impl JsonValue {
    /// Decides well-formedness, so that callers can establish `wf`
    /// for values built elsewhere.
    pub fn check_wf(&self) -> (r: bool)
        ensures
            r == self.wf(),
        decreases *self,
    {
        match self {
            JsonValue::Null => true,
            JsonValue::Bool(_) => true,
            JsonValue::Num(t) => {
                if t.len() == 0 {
                    return false;
                }
                let mut i: usize = 0;
                while i < t.len()
                    invariant
                        *self == JsonValue::Num(*t),
                        i <= t@.len(),
                        forall|j: int| 0 <= j < i ==> spec_num_byte_ok(#[trigger] t@[j]),
                    decreases t@.len() - i,
                {
                    let b = t[i];
                    if !((0x30 <= b && b <= 0x39) || b == 0x2d || b == 0x2b || b == 0x2e || b
                        == 0x65 || b == 0x45) {
                        return false;
                    }
                    i = i + 1;
                }
                true
            },
            JsonValue::Str(_) => true,
            JsonValue::Arr(xs) => {
                let mut i: usize = 0;
                while i < xs.len()
                    invariant
                        *self == JsonValue::Arr(*xs),
                        i <= xs@.len(),
                        forall|j: int| 0 <= j < i ==> (#[trigger] xs@[j]).wf(),
                    decreases xs@.len() - i,
                {
                    proof {
                        assert(decreases_to!(*self => (*self)->Arr_0));
                        assert(decreases_to!(*xs => xs@));
                        assert(decreases_to!(xs@ => xs@[i as int]));
                        assert(decreases_to!(*self => xs@[i as int]));
                    }
                    if !xs[i].check_wf() {
                        return false;
                    }
                    i = i + 1;
                }
                true
            },
            JsonValue::Obj(ps) => {
                let mut i: usize = 0;
                while i < ps.len()
                    invariant
                        *self == JsonValue::Obj(*ps),
                        i <= ps@.len(),
                        forall|j: int| 0 <= j < i ==> (#[trigger] ps@[j]).1.wf(),
                    decreases ps@.len() - i,
                {
                    proof {
                        assert(decreases_to!(*self => (*self)->Obj_0));
                        assert(decreases_to!(*ps => ps@));
                        assert(decreases_to!(ps@ => ps@[i as int]));
                        assert(decreases_to!(ps@[i as int] => ps@[i as int].1));
                        assert(decreases_to!(*self => ps@[i as int].1));
                    }
                    if !ps[i].1.check_wf() {
                        return false;
                    }
                    i = i + 1;
                }
                true
            },
        }
    }
}

/// One escaped byte never contains a newline.
proof fn lemma_escape_byte_newline_free(b: u8)
    ensures
        spec_newline_free(spec_escape_byte(b)),
{
}

/// Escaped string contents never contain a newline.
proof fn lemma_escape_newline_free(s: Seq<u8>)
    ensures
        spec_newline_free(spec_escape(s)),
    decreases s.len(),
{
    if s.len() > 0 {
        lemma_escape_byte_newline_free(s[0]);
        lemma_escape_newline_free(s.skip(1));
        lemma_nf_concat(spec_escape_byte(s[0]), spec_escape(s.skip(1)));
    }
}

/// One serialized object member never contains a newline.
proof fn lemma_ser_member_newline_free(p: (Vec<u8>, JsonValue))
    requires
        p.1.wf(),
    ensures
        spec_newline_free(spec_ser_member(p)),
    decreases p,
{
    assert(decreases_to!(p => p.1));
    lemma_ser_newline_free(p.1);
    lemma_escape_newline_free(p.0@);
    lemma_nf_concat(seq![0x22u8], spec_escape(p.0@));
    lemma_nf_concat(seq![0x22u8] + spec_escape(p.0@), seq![0x22u8, 0x3au8]);
    lemma_nf_concat(seq![0x22u8] + spec_escape(p.0@) + seq![0x22u8, 0x3au8], spec_ser(p.1));
}

/// The serialization of a well-formed value holds no newline byte: each
/// audit record stays on one line.
pub proof fn lemma_ser_newline_free(v: JsonValue)
    requires
        v.wf(),
    ensures
        spec_newline_free(spec_ser(v)),
    decreases v,
{
    match v {
        JsonValue::Null => {},
        JsonValue::Bool(_) => {},
        JsonValue::Num(t) => {},
        JsonValue::Str(s) => {
            lemma_escape_newline_free(s@);
            lemma_nf_concat(seq![0x22u8], spec_escape(s@));
            lemma_nf_concat(seq![0x22u8] + spec_escape(s@), seq![0x22u8]);
        },
        JsonValue::Arr(xs) => {
            lemma_ser_arr_newline_free(xs@);
            lemma_nf_concat(seq![0x5bu8], spec_ser_arr(xs@));
            lemma_nf_concat(seq![0x5bu8] + spec_ser_arr(xs@), seq![0x5du8]);
        },
        JsonValue::Obj(ps) => {
            lemma_ser_obj_newline_free(ps@);
            lemma_nf_concat(seq![0x7bu8], spec_ser_obj(ps@));
            lemma_nf_concat(seq![0x7bu8] + spec_ser_obj(ps@), seq![0x7du8]);
        },
    }
}

/// Array bodies of well-formed elements hold no newline byte.
proof fn lemma_ser_arr_newline_free(xs: Seq<JsonValue>)
    requires
        forall|i: int| 0 <= i < xs.len() ==> (#[trigger] xs[i]).wf(),
    ensures
        spec_newline_free(spec_ser_arr(xs)),
    decreases xs,
{
    if xs.len() == 0 {
    } else if xs.len() == 1 {
        assert(decreases_to!(xs => xs[0]));
        lemma_ser_newline_free(xs[0]);
    } else {
        assert(decreases_to!(xs => xs[0]));
        lemma_ser_newline_free(xs[0]);
        lemma_ser_arr_newline_free(xs.skip(1));
        lemma_nf_concat(spec_ser(xs[0]), seq![0x2cu8]);
        lemma_nf_concat(spec_ser(xs[0]) + seq![0x2cu8], spec_ser_arr(xs.skip(1)));
    }
}

/// Object bodies of well-formed members hold no newline byte.
proof fn lemma_ser_obj_newline_free(ps: Seq<(Vec<u8>, JsonValue)>)
    requires
        forall|i: int| 0 <= i < ps.len() ==> (#[trigger] ps[i]).1.wf(),
    ensures
        spec_newline_free(spec_ser_obj(ps)),
    decreases ps,
{
    if ps.len() == 0 {
    } else {
        assert(decreases_to!(ps => ps[0]));
        lemma_ser_member_newline_free(ps[0]);
        if ps.len() > 1 {
            lemma_ser_obj_newline_free(ps.skip(1));
            lemma_nf_concat(spec_ser_member(ps[0]), seq![0x2cu8]);
            lemma_nf_concat(spec_ser_member(ps[0]) + seq![0x2cu8], spec_ser_obj(ps.skip(1)));
        }
    }
}

} // verus!
