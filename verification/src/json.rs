//! The JSON value model.
//!
//! `Json` is the executable tree; `JsonV` is its mathematical image, used by
//! every contract.  Numbers are carried as their literal token text, so a
//! document round-trips without any floating-point arithmetic in the model.

use vstd::prelude::*;

verus! {

broadcast use vstd::std_specs::vec::group_vec_axioms;

/// Mathematical JSON value: the image of `Json` under `deep_view`.
pub enum JsonV {
    Null,
    Bool(bool),
    /// A number, as its literal token text.
    Num(Seq<char>),
    Str(Seq<char>),
    Arr(Seq<JsonV>),
    /// An object, as its fields in document order.
    Obj(Seq<(Seq<char>, JsonV)>),
}

/// Executable JSON value.  A number holds its token text; an object holds its
/// fields in document order.
#[derive(Debug, PartialEq)]
pub enum Json {
    Null,
    Bool(bool),
    Num(String),
    Str(String),
    Arr(Vec<Json>),
    Obj(Vec<(String, Json)>),
}

impl DeepView for Json {
    type V = JsonV;

    open spec fn deep_view(&self) -> JsonV
        decreases self,
    {
        match self {
            Json::Null => JsonV::Null,
            Json::Bool(b) => JsonV::Bool(*b),
            Json::Num(s) => JsonV::Num(s@),
            Json::Str(s) => JsonV::Str(s@),
            Json::Arr(a) => JsonV::Arr(arr_v(a@)),
            Json::Obj(o) => JsonV::Obj(entries_v(o@)),
        }
    }
}

/// The elementwise mathematical image of an array's elements.
pub open spec fn arr_v(a: Seq<Json>) -> Seq<JsonV>
    decreases a,
{
    Seq::new(
        a.len(),
        |i: int|
            if 0 <= i < a.len() {
                a[i].deep_view()
            } else {
                JsonV::Null
            },
    )
}

/// The elementwise mathematical image of an object's fields.
pub open spec fn entries_v(o: Seq<(String, Json)>) -> Seq<(Seq<char>, JsonV)>
    decreases o,
{
    Seq::new(
        o.len(),
        |i: int|
            if 0 <= i < o.len() {
                (o[i].0@, o[i].1.deep_view())
            } else {
                (Seq::empty(), JsonV::Null)
            },
    )
}

/// A structural copy with the same mathematical image.
pub fn json_clone(j: &Json) -> (r: Json)
    ensures
        r.deep_view() == j.deep_view(),
    decreases j,
{
    match j {
        Json::Null => Json::Null,
        Json::Bool(b) => Json::Bool(*b),
        Json::Num(s) => Json::Num(s.clone()),
        Json::Str(s) => Json::Str(s.clone()),
        Json::Arr(a) => {
            let mut out: Vec<Json> = Vec::new();
            let mut i: usize = 0;
            #[verifier::loop_isolation(false)]
            while i < a.len()
                invariant
                    i <= a@.len(),
                    out@.len() == i,
                    forall|k: int|
                        0 <= k < i ==> (#[trigger] out@[k]).deep_view() == arr_v(a@)[k],
                decreases a@.len() - i,
            {
                out.push(json_clone(&a[i]));
                i = i + 1;
            }
            proof {
                assert(arr_v(out@) =~= arr_v(a@));
            }
            Json::Arr(out)
        },
        Json::Obj(o) => {
            let mut out: Vec<(String, Json)> = Vec::new();
            let mut i: usize = 0;
            #[verifier::loop_isolation(false)]
            while i < o.len()
                invariant
                    i <= o@.len(),
                    out@.len() == i,
                    forall|k: int|
                        0 <= k < i ==> (entries_v(out@)[k]) == entries_v(o@)[k],
                decreases o@.len() - i,
            {
                let (k, v) = (&o[i].0, &o[i].1);
                out.push((k.clone(), json_clone(v)));
                i = i + 1;
            }
            proof {
                assert(entries_v(out@) =~= entries_v(o@));
            }
            Json::Obj(out)
        },
    }
}

/// A structural copy of an object's fields.
pub fn entries_clone(o: &Vec<(String, Json)>) -> (r: Vec<(String, Json)>)
    ensures
        entries_v(r@) == entries_v(o@),
{
    let mut out: Vec<(String, Json)> = Vec::new();
    let mut i: usize = 0;
    while i < o.len()
        invariant
            i <= o@.len(),
            out@.len() == i,
            forall|k: int| 0 <= k < i ==> (entries_v(out@)[k]) == entries_v(o@)[k],
        decreases o@.len() - i,
    {
        out.push((o[i].0.clone(), json_clone(&o[i].1)));
        i = i + 1;
    }
    proof {
        assert(entries_v(out@) =~= entries_v(o@));
    }
    out
}

/// A decimal digit.
pub open spec fn is_digit(c: char) -> bool {
    '0' <= c && c <= '9'
}

/// Digits from position `i` on, then the end of the integer part.
pub open spec fn num_digits_then(s: Seq<char>, i: int) -> bool
    decreases s.len() - i when 0 <= i <= s.len()
{
    if i < s.len() && is_digit(s[i]) {
        num_digits_then(s, i + 1)
    } else {
        num_after_int(s, i)
    }
}

/// What may follow the integer part: nothing, a fraction, or an exponent.
pub open spec fn num_after_int(s: Seq<char>, i: int) -> bool {
    ||| i == s.len()
    ||| (i < s.len() && s[i] == '.' && num_frac(s, i + 1))
    ||| (i < s.len() && s[i] == 'e' && num_exp(s, i + 1))
}

/// The fraction: at least one digit.
pub open spec fn num_frac(s: Seq<char>, i: int) -> bool {
    i < s.len() && is_digit(s[i]) && num_frac_digits(s, i + 1)
}

/// Fraction digits, then the end or an exponent.
pub open spec fn num_frac_digits(s: Seq<char>, i: int) -> bool
    decreases s.len() - i when 0 <= i <= s.len()
{
    if i < s.len() && is_digit(s[i]) {
        num_frac_digits(s, i + 1)
    } else {
        i == s.len() || (i < s.len() && s[i] == 'e' && num_exp(s, i + 1))
    }
}

/// The exponent: an explicit sign, then at least one digit.
pub open spec fn num_exp(s: Seq<char>, i: int) -> bool {
    &&& i < s.len()
    &&& (s[i] == '+' || s[i] == '-')
    &&& i + 1 < s.len()
    &&& is_digit(s[i + 1])
    &&& num_exp_digits(s, i + 2)
}

/// Trailing exponent digits.
pub open spec fn num_exp_digits(s: Seq<char>, i: int) -> bool
    decreases s.len() - i when 0 <= i <= s.len()
{
    if i < s.len() {
        is_digit(s[i]) && num_exp_digits(s, i + 1)
    } else {
        true
    }
}

/// The integer part: `0`, or a nonzero digit followed by digits.
pub open spec fn num_body(s: Seq<char>, i: int) -> bool {
    &&& i < s.len()
    &&& if s[i] == '0' {
        num_after_int(s, i + 1)
    } else {
        is_digit(s[i]) && num_digits_then(s, i + 1)
    }
}

/// A JSON number token in scanner-normal form: an optional minus sign, an
/// integer part without leading zeros, an optional fraction, and an optional
/// exponent written with a lowercase `e` and an explicit sign; the one
/// integer the reader spells without its sign, `-0`, is excluded.  This is
/// exactly the shape in which the text layer hands number tokens back, and
/// every such token is parsed again unchanged.
pub open spec fn num_token(s: Seq<char>) -> bool {
    if s.len() > 0 && s[0] == '-' {
        num_body(s, 1) && !(s.len() == 2 && s[1] == '0')
    } else {
        num_body(s, 0)
    }
}

fn chk_digit(c: char) -> (b: bool)
    ensures
        b == is_digit(c),
{
    c >= '0' && c <= '9'
}

fn chk_exp_digits(s: &str, i: usize) -> (b: bool)
    requires
        i <= s@.len(),
    ensures
        b == num_exp_digits(s@, i as int),
    decreases s@.len() - i,
{
    if i < s.unicode_len() {
        chk_digit(s.get_char(i)) && chk_exp_digits(s, i + 1)
    } else {
        true
    }
}

fn chk_exp(s: &str, i: usize) -> (b: bool)
    requires
        i <= s@.len(),
    ensures
        b == num_exp(s@, i as int),
{
    if i < s.unicode_len() {
        let c = s.get_char(i);
        if c == '+' || c == '-' {
            if i + 1 < s.unicode_len() && chk_digit(s.get_char(i + 1)) {
                chk_exp_digits(s, i + 2)
            } else {
                false
            }
        } else {
            false
        }
    } else {
        false
    }
}

fn chk_frac_digits(s: &str, i: usize) -> (b: bool)
    requires
        i <= s@.len(),
    ensures
        b == num_frac_digits(s@, i as int),
    decreases s@.len() - i,
{
    if i < s.unicode_len() {
        let c = s.get_char(i);
        if chk_digit(c) {
            chk_frac_digits(s, i + 1)
        } else if c == 'e' {
            chk_exp(s, i + 1)
        } else {
            false
        }
    } else {
        true
    }
}

fn chk_after_int(s: &str, i: usize) -> (b: bool)
    requires
        i <= s@.len(),
    ensures
        b == num_after_int(s@, i as int),
{
    if i == s.unicode_len() {
        true
    } else {
        let c = s.get_char(i);
        if c == '.' {
            i + 1 < s.unicode_len() && chk_digit(s.get_char(i + 1)) && chk_frac_digits(s, i + 2)
        } else if c == 'e' {
            chk_exp(s, i + 1)
        } else {
            false
        }
    }
}

fn chk_digits_then(s: &str, i: usize) -> (b: bool)
    requires
        i <= s@.len(),
    ensures
        b == num_digits_then(s@, i as int),
    decreases s@.len() - i,
{
    if i < s.unicode_len() && chk_digit(s.get_char(i)) {
        chk_digits_then(s, i + 1)
    } else {
        chk_after_int(s, i)
    }
}

fn chk_body(s: &str, i: usize) -> (b: bool)
    requires
        i <= s@.len(),
    ensures
        b == num_body(s@, i as int),
{
    if i < s.unicode_len() {
        let c = s.get_char(i);
        if c == '0' {
            chk_after_int(s, i + 1)
        } else if chk_digit(c) {
            chk_digits_then(s, i + 1)
        } else {
            false
        }
    } else {
        false
    }
}

/// Whether `s` is a number token in scanner-normal form.
pub fn is_num_text(s: &str) -> (b: bool)
    ensures
        b == num_token(s@),
{
    if s.unicode_len() > 0 && s.get_char(0) == '-' {
        if s.unicode_len() == 2 && s.get_char(1) == '0' {
            return false;
        }
        chk_body(s, 1)
    } else {
        chk_body(s, 0)
    }
}

/// Object keys are pairwise distinct.
pub open spec fn distinct_keys(o: Seq<(Seq<char>, JsonV)>) -> bool {
    forall|i: int, j: int| 0 <= i < j < o.len() ==> o[i].0 != o[j].0
}

/// The depth budget within which a whole document must fit so that the text
/// layer can read its own output back.
pub open spec fn depth_budget() -> int {
    127
}

/// Well-formed within depth budget `d`: number tokens are in scanner-normal
/// form, object keys are distinct, and containers nest at most `d` deep.
pub open spec fn wfb(v: JsonV, d: int) -> bool
    decreases v,
{
    match v {
        JsonV::Null => true,
        JsonV::Bool(_) => true,
        JsonV::Num(s) => num_token(s),
        JsonV::Str(_) => true,
        JsonV::Arr(a) => d >= 1 && wfb_seq(a, d - 1),
        JsonV::Obj(o) => d >= 1 && distinct_keys(o) && wfb_entries(o, d - 1),
    }
}

/// Every element of an array is well-formed within budget `d`.
pub open spec fn wfb_seq(a: Seq<JsonV>, d: int) -> bool
    decreases a,
{
    if a.len() == 0 {
        true
    } else {
        wfb(a.last(), d) && wfb_seq(a.drop_last(), d)
    }
}

/// Every value of an object is well-formed within budget `d`.
pub open spec fn wfb_entries(o: Seq<(Seq<char>, JsonV)>, d: int) -> bool
    decreases o,
{
    if o.len() == 0 {
        true
    } else {
        wfb(o.last().1, d) && wfb_entries(o.drop_last(), d)
    }
}

/// A whole document: well-formed within the full depth budget.
pub open spec fn wf_doc(v: JsonV) -> bool {
    wfb(v, depth_budget())
}

/// The first field named `k`, if any.
pub open spec fn obj_get(o: Seq<(Seq<char>, JsonV)>, k: Seq<char>) -> Option<JsonV>
    decreases o.len(),
{
    if o.len() == 0 {
        None
    } else if o[0].0 == k {
        Some(o[0].1)
    } else {
        obj_get(o.drop_first(), k)
    }
}

/// The fields whose names are not among `known`, in document order.
pub open spec fn obj_residual(
    o: Seq<(Seq<char>, JsonV)>,
    known: Seq<Seq<char>>,
) -> Seq<(Seq<char>, JsonV)> {
    o.filter(|p: (Seq<char>, JsonV)| !known.contains(p.0))
}

} // verus!
