//! The ordered category label list: its built-in default and its wire
//! encoding.
//!
//! The list travels as one text in which every label is terminated by one
//! `'\n'`; a label therefore must not contain the delimiter itself. The
//! empty list encodes to the empty text, and a non-empty text that does
//! not end in a delimiter is malformed.

use vstd::prelude::*;

use crate::codec::find_delim;
use crate::codec::first_delim;
use crate::codec::has_delim;
use crate::codec::lemma_first_delim_at;
use crate::DecodeError;
use crate::EncodeError;

verus! {

/// The built-in default label list: fourteen size tiers, in display order.
pub open spec fn default_sections_spec() -> Seq<Seq<char>> {
    seq![
        "40+ million"@,
        "30+ million"@,
        "20+ million"@,
        "10+ million"@,
        "5+ million"@,
        "1+ million"@,
        "500k+"@,
        "250k+"@,
        "100k+"@,
        "50k+"@,
        "5k+"@,
        "5k and below"@,
        "1k+"@,
        "1k and below"@,
    ]
}

/// A label list is encodable iff no label holds the delimiter.
pub open spec fn valid_labels(l: Seq<Seq<char>>) -> bool {
    forall|i: int| 0 <= i < l.len() ==> !l[i].contains('\n')
}

/// Wire form of the label list: every label followed by one delimiter.
pub open spec fn encode_sections_spec(l: Seq<Seq<char>>) -> Seq<char>
    decreases l.len(),
{
    if l.len() == 0 {
        Seq::<char>::empty()
    } else {
        l.first() + seq!['\n'] + encode_sections_spec(l.drop_first())
    }
}

/// The unique label list whose encoding is the text from `pos` on, if any.
pub open spec fn decode_sections_from(t: Seq<char>, pos: int) -> Option<Seq<Seq<char>>>
    decreases t.len() - pos,
{
    if pos < 0 || pos >= t.len() {
        Some(Seq::<Seq<char>>::empty())
    } else {
        let j = first_delim(t, pos);
        if j < pos || j >= t.len() {
            None
        } else {
            match decode_sections_from(t, j + 1) {
                None => None,
                Some(rest) => Some(seq![t.subrange(pos, j)] + rest),
            }
        }
    }
}

/// The unique label list a text is the encoding of, if there is one.
pub open spec fn decode_sections_spec(t: Seq<char>) -> Option<Seq<Seq<char>>> {
    decode_sections_from(t, 0)
}

/// The built-in default label list as a value.
pub fn default_sections() -> (v: Vec<String>)
    ensures
        v.deep_view() == default_sections_spec(),
{
    let mut v: Vec<String> = Vec::new();
    v.push(String::from_str("40+ million"));
    v.push(String::from_str("30+ million"));
    v.push(String::from_str("20+ million"));
    v.push(String::from_str("10+ million"));
    v.push(String::from_str("5+ million"));
    v.push(String::from_str("1+ million"));
    v.push(String::from_str("500k+"));
    v.push(String::from_str("250k+"));
    v.push(String::from_str("100k+"));
    v.push(String::from_str("50k+"));
    v.push(String::from_str("5k+"));
    v.push(String::from_str("5k and below"));
    v.push(String::from_str("1k+"));
    v.push(String::from_str("1k and below"));
    proof {
        assert(v.deep_view() =~= default_sections_spec());
    }
    v
}

/// Serializes the label list. Fails iff some label holds the delimiter.
pub fn encode_sections(labels: &Vec<String>) -> (res: Result<String, EncodeError>)
    ensures
        res is Ok <==> valid_labels(labels.deep_view()),
        res matches Ok(t) ==> t@ == encode_sections_spec(labels.deep_view()),
        res is Err ==> res == Err::<String, EncodeError>(EncodeError::LabelContainsDelimiter),
{
    let ghost l = labels.deep_view();
    let mut t = String::new();
    let mut k: usize = 0;
    proof {
        assert(l.subrange(0, l.len() as int) =~= l);
        assert(t@ + encode_sections_spec(l) =~= encode_sections_spec(l));
    }
    while k < labels.len()
        invariant
            k <= l.len(),
            l == labels.deep_view(),
            l.len() == labels@.len(),
            forall|i: int| 0 <= i < l.len() ==> l[i] == labels@[i]@,
            forall|i: int| 0 <= i < k ==> !l[i].contains('\n'),
            encode_sections_spec(l) =~= t@ + encode_sections_spec(
                l.subrange(k as int, l.len() as int),
            ),
        decreases l.len() - k,
    {
        if has_delim(labels[k].as_str()) {
            return Err(EncodeError::LabelContainsDelimiter);
        }
        let ghost t_old = t@;
        t.append(labels[k].as_str());
        proof {
            reveal_strlit("\n");
        }
        t.append("\n");
        proof {
            let suf = l.subrange(k as int, l.len() as int);
            let suf2 = l.subrange(k + 1 as int, l.len() as int);
            assert(suf.first() == l[k as int]);
            assert(suf.drop_first() =~= suf2);
            assert(encode_sections_spec(suf) =~= l[k as int] + seq!['\n'] + encode_sections_spec(
                suf2,
            ));
            assert(t@ =~= t_old + l[k as int] + seq!['\n']);
            assert(encode_sections_spec(l) =~= t@ + encode_sections_spec(suf2));
        }
        k += 1;
    }
    proof {
        assert(l.subrange(k as int, l.len() as int) =~= Seq::<Seq<char>>::empty());
        assert(t@ =~= encode_sections_spec(l));
    }
    Ok(t)
}

/// Parses the label list from its wire text: the inverse of
/// `encode_sections`.
pub fn decode_sections(t: &str) -> (res: Result<Vec<String>, DecodeError>)
    ensures
        res is Ok <==> decode_sections_spec(t@) is Some,
        res matches Ok(v) ==> Some(v.deep_view()) == decode_sections_spec(t@),
        res is Err ==> res == Err::<Vec<String>, DecodeError>(DecodeError::UnterminatedLabel),
{
    let n = t.unicode_len();
    let mut out: Vec<String> = Vec::new();
    let mut pos: usize = 0;
    while pos < n
        invariant
            pos <= n,
            n == t@.len(),
            decode_sections_from(t@, pos as int) is Some ==> decode_sections_from(t@, 0) == Some(
                out.deep_view() + decode_sections_from(t@, pos as int)->Some_0,
            ),
            decode_sections_from(t@, pos as int) is None ==> decode_sections_from(t@, 0) is None,
        decreases n - pos,
    {
        let j = match find_delim(t, pos) {
            None => {
                return Err(DecodeError::UnterminatedLabel);
            },
            Some(j) => j,
        };
        let ghost out_old = out.deep_view();
        let label = t.substring_char(pos, j).to_owned();
        out.push(label);
        proof {
            assert(out.deep_view() =~= out_old + seq![t@.subrange(pos as int, j as int)]);
            if decode_sections_from(t@, j + 1 as int) is Some {
                let rest = decode_sections_from(t@, j + 1 as int)->Some_0;
                assert(decode_sections_from(t@, pos as int) == Some(
                    seq![t@.subrange(pos as int, j as int)] + rest,
                ));
                assert(out_old + (seq![t@.subrange(pos as int, j as int)] + rest)
                    =~= out.deep_view() + rest);
            }
        }
        pos = j + 1;
    }
    proof {
        assert(decode_sections_from(t@, pos as int) == Some(Seq::<Seq<char>>::empty()));
        assert(out.deep_view() + Seq::<Seq<char>>::empty() =~= out.deep_view());
    }
    Ok(out)
}

/// The stored label list if one was ever written, else the built-in
/// default: `None` (no prior write) is not an error.
pub fn read_sections(stored: &Option<String>) -> (res: Result<Vec<String>, DecodeError>)
    ensures
        stored is None ==> (res matches Ok(v) && v.deep_view() == default_sections_spec()),
        stored matches Some(t) ==> (res is Ok <==> decode_sections_spec(t@) is Some),
        stored matches Some(t) ==> (res matches Ok(v) ==> Some(v.deep_view())
            == decode_sections_spec(t@)),
        res is Err ==> res == Err::<Vec<String>, DecodeError>(DecodeError::UnterminatedLabel),
{
    match stored {
        None => Ok(default_sections()),
        Some(t) => decode_sections(t.as_str()),
    }
}

/// Law: encoding a label list and decoding the text yields the list back.
pub proof fn lemma_sections_round_trip(l: Seq<Seq<char>>)
    requires
        valid_labels(l),
    ensures
        decode_sections_spec(encode_sections_spec(l)) == Some(l),
{
    let t = encode_sections_spec(l);
    assert(t.subrange(0, t.len() as int) =~= t);
    lemma_sections_round_trip_from(t, 0, l);
}

/// Round trip, generalized over the suffix of the full text that remains
/// to be decoded.
proof fn lemma_sections_round_trip_from(t: Seq<char>, pos: int, l: Seq<Seq<char>>)
    requires
        0 <= pos <= t.len(),
        valid_labels(l),
        t.subrange(pos, t.len() as int) == encode_sections_spec(l),
    ensures
        decode_sections_from(t, pos) == Some(l),
    decreases l.len(),
{
    let suf = t.subrange(pos, t.len() as int);
    if l.len() == 0 {
        assert(suf.len() == 0);
        assert(decode_sections_from(t, pos) == Some(Seq::<Seq<char>>::empty()));
        assert(Seq::<Seq<char>>::empty() =~= l);
    } else {
        let l0 = l.first();
        let k = pos + l0.len() as int;
        assert(suf =~= l0 + seq!['\n'] + encode_sections_spec(l.drop_first()));
        assert(t[k] == suf[l0.len() as int]);
        assert(t[k] == '\n');
        assert forall|j: int| pos <= j < k implies t[j] != '\n' by {
            assert(t[j] == suf[j - pos]);
            assert(suf[j - pos] == l0[j - pos]);
            if t[j] == '\n' {
                assert(l0[j - pos] == '\n');
                assert(l0.contains('\n'));
                assert(!l[0].contains('\n'));
            }
        }
        lemma_first_delim_at(t, pos, k);
        assert(valid_labels(l.drop_first())) by {
            assert(forall|i: int|
                0 <= i < l.drop_first().len() ==> l.drop_first()[i] == l[i + 1]);
        }
        assert(t.subrange(k + 1, t.len() as int) =~= encode_sections_spec(l.drop_first())) by {
            assert forall|m: int| 0 <= m < t.len() - k - 1 implies t.subrange(
                k + 1,
                t.len() as int,
            )[m] == encode_sections_spec(l.drop_first())[m] by {
                assert(t.subrange(k + 1, t.len() as int)[m] == suf[m + l0.len() + 1]);
            }
        }
        lemma_sections_round_trip_from(t, k + 1, l.drop_first());
        assert(t.subrange(pos, k) =~= l0) by {
            assert forall|m: int| 0 <= m < l0.len() implies t.subrange(pos, k)[m] == l0[m] by {
                assert(t.subrange(pos, k)[m] == suf[m]);
            }
        }
        assert(seq![t.subrange(pos, k)] + l.drop_first() =~= l);
    }
}

} // verus!
