//! The JSON subset the protocol speaks, and its serializer.
//!
//! Requests and responses of this client use null, booleans, integers,
//! strings, arrays and objects. A number outside integer range (a float)
//! falls outside the subset; a response using one does not decode, which
//! the retry policy treats like any other malformed body.
//!
//! The model of a value, [`JVal`], speaks of strings as their UTF-8 bytes,
//! so the serializer's contract is stated over the exact bytes that go on
//! the wire.

use vstd::prelude::*;
use vstd::utf8::encode_utf8;
use vstd::string::StringSliceAdditionalSpecFns;
use crate::hex::hex_digit;

verus! {

/// The mathematical model of a JSON value of the subset: numbers are
/// unbounded integers, strings are their UTF-8 bytes, objects are ordered
/// key/value lists.
pub enum JVal {
    Null,
    Bool(bool),
    Int(int),
    Str(Seq<u8>),
    Arr(Seq<JVal>),
    Obj(Seq<(Seq<u8>, JVal)>),
}

/// A JSON value of the subset. Signed and unsigned integers are kept
/// apart so that every `u64` (a difficulty) and every `i64` (an error
/// code) fits; both model as [`JVal::Int`].
#[derive(Debug)]
pub enum Json {
    Null,
    Bool(bool),
    Int(i64),
    UInt(u64),
    Str(String),
    Arr(Vec<Json>),
    Obj(Vec<(String, Json)>),
}

/// The model of a value.
pub open spec fn jmodel(j: Json) -> JVal
    decreases j,
{
    match j {
        Json::Null => JVal::Null,
        Json::Bool(b) => JVal::Bool(b),
        Json::Int(i) => JVal::Int(i as int),
        Json::UInt(u) => JVal::Int(u as int),
        Json::Str(s) => JVal::Str(encode_utf8(s@)),
        Json::Arr(es) => JVal::Arr(elems_model(es@)),
        Json::Obj(ms) => JVal::Obj(members_model(ms@)),
    }
}

/// The model of an array's elements.
pub open spec fn elems_model(es: Seq<Json>) -> Seq<JVal>
    decreases es,
{
    if es.len() == 0 {
        Seq::empty()
    } else {
        seq![jmodel(es[0])] + elems_model(es.drop_first())
    }
}

/// The model of an object's members.
pub open spec fn members_model(ms: Seq<(String, Json)>) -> Seq<(Seq<u8>, JVal)>
    decreases ms,
{
    if ms.len() == 0 {
        Seq::empty()
    } else {
        seq![(encode_utf8(ms[0].0@), jmodel(ms[0].1))] + members_model(ms.drop_first())
    }
}

impl View for Json {
    type V = JVal;

    open spec fn view(&self) -> JVal {
        jmodel(*self)
    }
}

pub proof fn lemma_elems_model_len(es: Seq<Json>)
    ensures
        elems_model(es).len() == es.len(),
    decreases es.len(),
{
    if es.len() > 0 {
        lemma_elems_model_len(es.drop_first());
    }
}

pub proof fn lemma_elems_model_index(es: Seq<Json>, i: int)
    requires
        0 <= i < es.len(),
    ensures
        elems_model(es).len() == es.len(),
        elems_model(es)[i] == jmodel(es[i]),
    decreases es.len(),
{
    lemma_elems_model_len(es);
    if i > 0 {
        lemma_elems_model_index(es.drop_first(), i - 1);
    }
}

pub proof fn lemma_members_model_len(ms: Seq<(String, Json)>)
    ensures
        members_model(ms).len() == ms.len(),
    decreases ms.len(),
{
    if ms.len() > 0 {
        lemma_members_model_len(ms.drop_first());
    }
}

pub proof fn lemma_members_model_index(ms: Seq<(String, Json)>, i: int)
    requires
        0 <= i < ms.len(),
    ensures
        members_model(ms).len() == ms.len(),
        members_model(ms)[i] == (encode_utf8(ms[i].0@), jmodel(ms[i].1)),
    decreases ms.len(),
{
    lemma_members_model_len(ms);
    if i > 0 {
        lemma_members_model_index(ms.drop_first(), i - 1);
    }
}

/// What a key stands for in an object: the value of its first occurrence,
/// or `None` where no member carries it.
pub open spec fn obj_lookup(ms: Seq<(Seq<u8>, JVal)>, k: Seq<u8>) -> Option<JVal>
    decreases ms.len(),
{
    if ms.len() == 0 {
        None
    } else if ms[0].0 == k {
        Some(ms[0].1)
    } else {
        obj_lookup(ms.drop_first(), k)
    }
}

/// The decimal digits of a non-negative integer.
pub open spec fn dec_digits(n: int) -> Seq<u8>
    decreases n,
{
    if n < 10 {
        seq![(0x30 + if n < 0 { 0int } else { n }) as u8]
    } else {
        dec_digits(n / 10).push((0x30 + (n % 10)) as u8)
    }
}

/// The JSON text of an integer.
pub open spec fn dec_int(i: int) -> Seq<u8> {
    if i < 0 {
        seq![0x2du8] + dec_digits(-i)
    } else {
        dec_digits(i)
    }
}

/// The JSON string-escape of one byte of UTF-8 text: quote and backslash
/// get a backslash, control bytes become a `\u00XX` escape, every other
/// byte (continuation bytes of multi-byte characters included) stands as
/// it is.
pub open spec fn escape_byte(b: u8) -> Seq<u8> {
    if b == 0x22 {
        seq![0x5cu8, 0x22u8]
    } else if b == 0x5c {
        seq![0x5cu8, 0x5cu8]
    } else if b < 0x20 {
        seq![0x5cu8, 0x75u8, 0x30u8, 0x30u8, hex_digit(b / 16), hex_digit(b % 16)]
    } else {
        seq![b]
    }
}

/// The JSON string-escape of UTF-8 text.
pub open spec fn escape(s: Seq<u8>) -> Seq<u8>
    decreases s.len(),
{
    if s.len() == 0 {
        Seq::empty()
    } else {
        escape_byte(s[0]) + escape(s.drop_first())
    }
}

/// The serialized text of a value of the model.
pub open spec fn ser_json(v: JVal) -> Seq<u8>
    decreases v,
{
    match v {
        JVal::Null => "null".spec_bytes(),
        JVal::Bool(b) => if b {
            "true".spec_bytes()
        } else {
            "false".spec_bytes()
        },
        JVal::Int(i) => dec_int(i),
        JVal::Str(s) => seq![0x22u8] + escape(s) + seq![0x22u8],
        JVal::Arr(es) => seq![0x5bu8] + ser_elems(es) + seq![0x5du8],
        JVal::Obj(ms) => seq![0x7bu8] + ser_members(ms) + seq![0x7du8],
    }
}

/// The serialized text of an array's elements, commas between them.
pub open spec fn ser_elems(es: Seq<JVal>) -> Seq<u8>
    decreases es,
{
    if es.len() == 0 {
        Seq::empty()
    } else {
        ser_json(es[0]) + ser_elems_rest(es.drop_first())
    }
}

/// The serialized text of the elements after the first, each behind a comma.
pub open spec fn ser_elems_rest(es: Seq<JVal>) -> Seq<u8>
    decreases es,
{
    if es.len() == 0 {
        Seq::empty()
    } else {
        seq![0x2cu8] + ser_json(es[0]) + ser_elems_rest(es.drop_first())
    }
}

/// The serialized text of one object member.
pub open spec fn ser_member(m: (Seq<u8>, JVal)) -> Seq<u8>
    decreases m,
{
    seq![0x22u8] + escape(m.0) + seq![0x22u8, 0x3au8] + ser_json(m.1)
}

/// The serialized text of an object's members, commas between them.
pub open spec fn ser_members(ms: Seq<(Seq<u8>, JVal)>) -> Seq<u8>
    decreases ms,
{
    if ms.len() == 0 {
        Seq::empty()
    } else {
        ser_member(ms[0]) + ser_rest(ms.drop_first())
    }
}

/// The serialized text of the members after the first, each behind a comma.
pub open spec fn ser_rest(ms: Seq<(Seq<u8>, JVal)>) -> Seq<u8>
    decreases ms,
{
    if ms.len() == 0 {
        Seq::empty()
    } else {
        seq![0x2cu8] + ser_member(ms[0]) + ser_rest(ms.drop_first())
    }
}

/// Whether two byte strings hold the same bytes.
pub fn bytes_eq(a: &[u8], b: &[u8]) -> (r: bool)
    ensures
        r == (a@ == b@),
{
    if a.len() != b.len() {
        return false;
    }
    let n = a.len();
    let mut i: usize = 0;
    while i < n
        invariant
            i <= n,
            n == a@.len() == b@.len(),
            forall|j: int| 0 <= j < i ==> a@[j] == b@[j],
        decreases n - i,
    {
        if a[i] != b[i] {
            return false;
        }
        i = i + 1;
    }
    proof {
        assert(a@ =~= b@);
    }
    true
}

/// Looks a key up among an object's members; the first occurrence wins,
/// as in the model.
pub fn obj_get<'a>(ms: &'a Vec<(String, Json)>, key: &str) -> (r: Option<&'a Json>)
    ensures
        match r {
            Some(v) => obj_lookup(members_model(ms@), key.spec_bytes()) == Some(v@),
            None => obj_lookup(members_model(ms@), key.spec_bytes()) is None,
        },
{
    let ghost mm = members_model(ms@);
    let ghost kb = key.spec_bytes();
    let n = ms.len();
    let mut i: usize = 0;
    proof {
        lemma_members_model_len(ms@);
        assert(mm.subrange(0, n as int) =~= mm);
    }
    while i < n
        invariant
            i <= n,
            n == ms@.len(),
            mm == members_model(ms@),
            kb == key.spec_bytes(),
            mm.len() == n,
            obj_lookup(mm, kb) == obj_lookup(mm.subrange(i as int, n as int), kb),
        decreases n - i,
    {
        proof {
            lemma_members_model_index(ms@, i as int);
        }
        let ghost tail = mm.subrange(i as int, n as int);
        assert(tail[0] == mm[i as int]);
        if bytes_eq(ms[i].0.as_str().as_bytes(), key.as_bytes()) {
            assert(obj_lookup(tail, kb) == Some(mm[i as int].1));
            return Some(&ms[i].1);
        }
        assert(tail.drop_first() =~= mm.subrange(i + 1, n as int));
        i = i + 1;
    }
    assert(mm.subrange(n as int, n as int) =~= Seq::<(Seq<u8>, JVal)>::empty());
    None
}

/// Takes a key's value out of an object's members; the first occurrence
/// wins, as in the model.
pub fn obj_take(ms: &mut Vec<(String, Json)>, key: &str) -> (r: Option<Json>)
    ensures
        match r {
            Some(v) => obj_lookup(members_model(old(ms)@), key.spec_bytes()) == Some(v@),
            None => obj_lookup(members_model(old(ms)@), key.spec_bytes()) is None,
        },
{
    let ghost mm = members_model(old(ms)@);
    let ghost kb = key.spec_bytes();
    let n = ms.len();
    let mut i: usize = 0;
    proof {
        lemma_members_model_len(ms@);
        assert(mm.subrange(0, n as int) =~= mm);
    }
    while i < n
        invariant
            i <= n,
            ms@ == old(ms)@,
            n == ms@.len(),
            mm == members_model(ms@),
            kb == key.spec_bytes(),
            mm.len() == n,
            obj_lookup(mm, kb) == obj_lookup(mm.subrange(i as int, n as int), kb),
        decreases n - i,
    {
        proof {
            lemma_members_model_index(ms@, i as int);
        }
        let ghost tail = mm.subrange(i as int, n as int);
        assert(tail[0] == mm[i as int]);
        if bytes_eq(ms[i].0.as_str().as_bytes(), key.as_bytes()) {
            assert(obj_lookup(tail, kb) == Some(mm[i as int].1));
            let m = ms.remove(i);
            return Some(m.1);
        }
        assert(tail.drop_first() =~= mm.subrange(i + 1, n as int));
        i = i + 1;
    }
    assert(mm.subrange(n as int, n as int) =~= Seq::<(Seq<u8>, JVal)>::empty());
    None
}

/// Appends the bytes of a string slice.
pub fn push_str_bytes(out: &mut Vec<u8>, s: &str)
    ensures
        final(out)@ == old(out)@ + s.spec_bytes(),
{
    let b = s.as_bytes();
    let n = b.len();
    let mut i: usize = 0;
    while i < n
        invariant
            i <= n,
            n == b@.len(),
            b@ == s.spec_bytes(),
            out@ == old(out)@ + b@.take(i as int),
        decreases n - i,
    {
        out.push(b[i]);
        proof {
            assert(b@.take(i + 1) =~= b@.take(i as int).push(b@[i as int]));
            assert(old(out)@ + b@.take(i + 1) =~= (old(out)@ + b@.take(i as int)).push(
                b@[i as int],
            ));
        }
        i = i + 1;
    }
    proof {
        assert(b@.take(n as int) =~= b@);
    }
}

proof fn lemma_escape_push(s: Seq<u8>, x: u8)
    ensures
        escape(s.push(x)) == escape(s) + escape_byte(x),
    decreases s.len(),
{
    if s.len() == 0 {
        assert(s.push(x)[0] == x);
        assert(s.push(x).drop_first() =~= Seq::<u8>::empty());
        assert(escape(Seq::<u8>::empty()) =~= Seq::<u8>::empty());
        assert(escape(s) =~= Seq::<u8>::empty());
        assert(escape(s.push(x)) =~= escape(s) + escape_byte(x));
    } else {
        assert(s.push(x)[0] == s[0]);
        assert(s.push(x).drop_first() =~= s.drop_first().push(x));
        lemma_escape_push(s.drop_first(), x);
        assert(escape(s.push(x)) =~= escape(s) + escape_byte(x));
    }
}

/// Appends text in its JSON string-escaped form.
pub fn push_escaped(out: &mut Vec<u8>, s: &[u8])
    ensures
        final(out)@ == old(out)@ + escape(s@),
{
    let n = s.len();
    let mut i: usize = 0;
    while i < n
        invariant
            i <= n,
            n == s@.len(),
            out@ == old(out)@ + escape(s@.take(i as int)),
        decreases n - i,
    {
        let b = s[i];
        let ghost prev = out@;
        if b == 0x22 {
            out.push(0x5c);
            out.push(0x22);
            assert(out@ =~= prev + escape_byte(b));
        } else if b == 0x5c {
            out.push(0x5c);
            out.push(0x5c);
            assert(out@ =~= prev + escape_byte(b));
        } else if b < 0x20 {
            out.push(0x5c);
            out.push(0x75);
            out.push(0x30);
            out.push(0x30);
            out.push(crate::hex::hex_digit_byte(b / 16));
            out.push(crate::hex::hex_digit_byte(b % 16));
            assert(out@ =~= prev + escape_byte(b));
        } else {
            out.push(b);
            assert(out@ =~= prev + escape_byte(b));
        }
        proof {
            lemma_escape_push(s@.take(i as int), b);
            assert(s@.take(i as int).push(s@[i as int]) =~= s@.take(i + 1));
            assert(out@ =~= old(out)@ + escape(s@.take(i + 1)));
        }
        i = i + 1;
    }
    proof {
        assert(s@.take(n as int) =~= s@);
    }
}

fn push_dec_u64(out: &mut Vec<u8>, n: u64)
    ensures
        final(out)@ == old(out)@ + dec_digits(n as int),
    decreases n,
{
    if n < 10 {
        out.push(0x30 + n as u8);
        assert(out@ =~= old(out)@ + dec_digits(n as int));
    } else {
        assert(n / 10 < n && n / 10 >= 1) by (nonlinear_arith)
            requires
                n >= 10,
        ;
        push_dec_u64(out, n / 10);
        out.push(0x30 + (n % 10) as u8);
        assert(out@ =~= old(out)@ + dec_digits(n as int));
    }
}

fn push_dec_i64(out: &mut Vec<u8>, i: i64)
    ensures
        final(out)@ == old(out)@ + dec_int(i as int),
{
    if i >= 0 {
        push_dec_u64(out, i as u64);
    } else {
        out.push(0x2d);
        let m: u64 = ((-(i + 1)) as u64) + 1;
        assert(m as int == -(i as int));
        push_dec_u64(out, m);
        assert(out@ =~= old(out)@ + dec_int(i as int));
    }
}

fn write_member(out: &mut Vec<u8>, m: &(String, Json))
    ensures
        final(out)@ == old(out)@ + ser_member((encode_utf8(m.0@), jmodel(m.1))),
    decreases *m,
{
    out.push(0x22);
    push_escaped(out, m.0.as_str().as_bytes());
    out.push(0x22);
    out.push(0x3a);
    write_json(out, &m.1);
    assert(out@ =~= old(out)@ + ser_member((encode_utf8(m.0@), jmodel(m.1))));
}

proof fn lemma_ser_elems_rest_push(es: Seq<JVal>, e: JVal)
    ensures
        ser_elems_rest(es.push(e)) == ser_elems_rest(es) + seq![0x2cu8] + ser_json(e),
    decreases es.len(),
{
    if es.len() == 0 {
        assert(es.push(e)[0] == e);
        assert(es.push(e).drop_first() =~= Seq::<JVal>::empty());
        assert(ser_elems_rest(Seq::<JVal>::empty()) =~= Seq::<u8>::empty());
        assert(ser_elems_rest(es) =~= Seq::<u8>::empty());
        assert(ser_elems_rest(es.push(e)) =~= ser_elems_rest(es) + seq![0x2cu8] + ser_json(e));
    } else {
        assert(es.push(e)[0] == es[0]);
        assert(es.push(e).drop_first() =~= es.drop_first().push(e));
        lemma_ser_elems_rest_push(es.drop_first(), e);
        assert(ser_elems_rest(es.push(e)) =~= ser_elems_rest(es) + seq![0x2cu8] + ser_json(e));
    }
}

proof fn lemma_ser_rest_push(ms: Seq<(Seq<u8>, JVal)>, m: (Seq<u8>, JVal))
    ensures
        ser_rest(ms.push(m)) == ser_rest(ms) + seq![0x2cu8] + ser_member(m),
    decreases ms.len(),
{
    if ms.len() == 0 {
        assert(ms.push(m)[0] == m);
        assert(ms.push(m).drop_first() =~= Seq::<(Seq<u8>, JVal)>::empty());
        assert(ser_rest(Seq::<(Seq<u8>, JVal)>::empty()) =~= Seq::<u8>::empty());
        assert(ser_rest(ms) =~= Seq::<u8>::empty());
        assert(ser_rest(ms.push(m)) =~= ser_rest(ms) + seq![0x2cu8] + ser_member(m));
    } else {
        assert(ms.push(m)[0] == ms[0]);
        assert(ms.push(m).drop_first() =~= ms.drop_first().push(m));
        lemma_ser_rest_push(ms.drop_first(), m);
        assert(ser_rest(ms.push(m)) =~= ser_rest(ms) + seq![0x2cu8] + ser_member(m));
    }
}

/// Appends the serialized text of a value.
#[verifier::loop_isolation(false)]
pub fn write_json(out: &mut Vec<u8>, v: &Json)
    ensures
        final(out)@ == old(out)@ + ser_json(v@),
    decreases *v,
{
    match v {
        Json::Null => {
            push_str_bytes(out, "null");
        },
        Json::Bool(b) => {
            if *b {
                push_str_bytes(out, "true");
            } else {
                push_str_bytes(out, "false");
            }
        },
        Json::Int(i) => {
            push_dec_i64(out, *i);
        },
        Json::UInt(u) => {
            push_dec_u64(out, *u);
            assert(dec_int(*u as int) == dec_digits(*u as int));
        },
        Json::Str(s) => {
            out.push(0x22);
            push_escaped(out, s.as_str().as_bytes());
            out.push(0x22);
            assert(out@ =~= old(out)@ + ser_json(v@));
        },
        Json::Arr(es) => {
            let ghost em = elems_model(es@);
            proof {
                lemma_elems_model_len(es@);
            }
            out.push(0x5b);
            let n = es.len();
            if n > 0 {
                proof {
                    lemma_elems_model_index(es@, 0);
                }
                write_json(out, &es[0]);
                let mut i: usize = 1;
                while i < n
                    invariant
                        *v == Json::Arr(*es),
                        1 <= i <= n,
                        n == es@.len(),
                        em == elems_model(es@),
                        em.len() == n,
                        out@ == old(out)@ + seq![0x5bu8] + ser_json(em[0]) + ser_elems_rest(
                            em.subrange(1, i as int),
                        ),
                    decreases n - i,
                {
                    out.push(0x2c);
                    proof {
                        lemma_elems_model_index(es@, i as int);
                    }
                    write_json(out, &es[i]);
                    proof {
                        lemma_ser_elems_rest_push(em.subrange(1, i as int), em[i as int]);
                        assert(em.subrange(1, i as int).push(em[i as int]) =~= em.subrange(
                            1,
                            i + 1,
                        ));
                        assert(out@ =~= old(out)@ + seq![0x5bu8] + ser_json(em[0])
                            + ser_elems_rest(em.subrange(1, i + 1)));
                    }
                    i = i + 1;
                }
                out.push(0x5d);
                proof {
                    assert(em.subrange(1, n as int) =~= em.drop_first());
                    assert(ser_elems(em) == ser_json(em[0]) + ser_elems_rest(em.drop_first()));
                    assert(out@ =~= old(out)@ + ser_json(v@));
                }
            } else {
                out.push(0x5d);
                proof {
                    assert(em =~= Seq::<JVal>::empty());
                    assert(out@ =~= old(out)@ + ser_json(v@));
                }
            }
        },
        Json::Obj(ms) => {
            let ghost mm = members_model(ms@);
            proof {
                lemma_members_model_len(ms@);
            }
            out.push(0x7b);
            let n = ms.len();
            if n > 0 {
                proof {
                    lemma_members_model_index(ms@, 0);
                }
                write_member(out, &ms[0]);
                let mut i: usize = 1;
                while i < n
                    invariant
                        *v == Json::Obj(*ms),
                        1 <= i <= n,
                        n == ms@.len(),
                        mm == members_model(ms@),
                        mm.len() == n,
                        out@ == old(out)@ + seq![0x7bu8] + ser_member(mm[0]) + ser_rest(
                            mm.subrange(1, i as int),
                        ),
                    decreases n - i,
                {
                    out.push(0x2c);
                    proof {
                        lemma_members_model_index(ms@, i as int);
                    }
                    write_member(out, &ms[i]);
                    proof {
                        lemma_ser_rest_push(mm.subrange(1, i as int), mm[i as int]);
                        assert(mm.subrange(1, i as int).push(mm[i as int]) =~= mm.subrange(
                            1,
                            i + 1,
                        ));
                        assert(out@ =~= old(out)@ + seq![0x7bu8] + ser_member(mm[0]) + ser_rest(
                            mm.subrange(1, i + 1),
                        ));
                    }
                    i = i + 1;
                }
                out.push(0x7d);
                proof {
                    assert(mm.subrange(1, n as int) =~= mm.drop_first());
                    assert(ser_members(mm) == ser_member(mm[0]) + ser_rest(mm.drop_first()));
                    assert(out@ =~= old(out)@ + ser_json(v@));
                }
            } else {
                out.push(0x7d);
                proof {
                    assert(mm =~= Seq::<(Seq<u8>, JVal)>::empty());
                    assert(out@ =~= old(out)@ + ser_json(v@));
                }
            }
        },
    }
}

/// The serialized text of a value, as fresh bytes.
pub fn json_bytes(v: &Json) -> (r: Vec<u8>)
    ensures
        r@ == ser_json(v@),
{
    let mut out: Vec<u8> = Vec::new();
    write_json(&mut out, v);
    proof {
        assert(Seq::<u8>::empty() + ser_json(v@) =~= ser_json(v@));
    }
    out
}

} // verus!
