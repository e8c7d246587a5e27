//! The wire encoding of a `ChatMessage` and its inverse.
//!
//! The envelope is a flat character string: the two identifiers as 32 hex
//! digits each, the reply reference as a tag character (`n` for none, `s`
//! followed by 32 hex digits for a reference), then the content and the
//! participant list, each string written as a 16-hex-digit length followed by
//! its characters.  Length-prefixing makes escaping unnecessary, and every
//! field is recovered exactly: encoding then decoding returns the message
//! unchanged, which is proved below.
//!
//! The exact field layout is this implementation's choice; the protocol only
//! demands that all five fields round-trip.

use vstd::prelude::*;

use crate::hex::{
    all_hex, hex_decode, hex_encode, hex_seq, hex_val, lemma_hex_seq_all_hex, lemma_hex_seq_len,
    lemma_hex_seq_val, lemma_pow16_values, pow16,
};
use crate::message::{ChatMessage, ChatMessageModel};
use vstd::string::StrSliceExecFns;
use vstd::string::StringExecFns;

verus! {

// ---------------------------------------------------------------------------
// The encoding, at the level of character sequences.
// ---------------------------------------------------------------------------
/// A string field: its length as 16 hex digits, then its characters.
pub open spec fn enc_str(s: Seq<char>) -> Seq<char> {
    hex_seq(s.len(), 16) + s
}

/// The participant list, one string field after the other.
pub open spec fn enc_participants(ps: Seq<Seq<char>>) -> Seq<char>
    decreases ps.len(),
{
    if ps.len() == 0 {
        Seq::empty()
    } else {
        enc_str(ps.first()) + enc_participants(ps.drop_first())
    }
}

/// The reply reference: `n` when absent, `s` and 32 hex digits when present.
pub open spec fn enc_answer(a: Option<u128>) -> Seq<char> {
    match a {
        None => seq!['n'],
        Some(v) => seq!['s'] + hex_seq(v as nat, 32),
    }
}

/// The whole envelope.
pub open spec fn encode_spec(m: ChatMessageModel) -> Seq<char> {
    hex_seq(m.id as nat, 32) + hex_seq(m.chat_id as nat, 32) + enc_answer(m.answer_to) + enc_str(
        m.content,
    ) + hex_seq(m.participants.len(), 16) + enc_participants(m.participants)
}

// ---------------------------------------------------------------------------
// The decoding, at the level of character sequences.  Each step returns the
// parsed value and the unread remainder, or nothing when the input is
// malformed.
// ---------------------------------------------------------------------------
/// `k` hex digits.
pub open spec fn dec_hex(s: Seq<char>, k: nat) -> Option<(nat, Seq<char>)> {
    if s.len() >= k && all_hex(s.take(k as int)) {
        Some((hex_val(s.take(k as int)), s.skip(k as int)))
    } else {
        None
    }
}

/// A length-prefixed string field.
pub open spec fn dec_str(s: Seq<char>) -> Option<(Seq<char>, Seq<char>)> {
    match dec_hex(s, 16) {
        Some((l, r)) => if r.len() >= l {
            Some((r.take(l as int), r.skip(l as int)))
        } else {
            None
        },
        None => None,
    }
}

/// `count` string fields in a row.
pub open spec fn dec_participants(s: Seq<char>, count: nat) -> Option<(Seq<Seq<char>>, Seq<char>)>
    decreases count,
{
    if count == 0 {
        Some((Seq::empty(), s))
    } else {
        match dec_str(s) {
            Some((p, r)) => match dec_participants(r, (count - 1) as nat) {
                Some((ps, r2)) => Some((seq![p] + ps, r2)),
                None => None,
            },
            None => None,
        }
    }
}

/// The reply reference.
pub open spec fn dec_answer(s: Seq<char>) -> Option<(Option<u128>, Seq<char>)> {
    if s.len() >= 1 && s[0] == 'n' {
        Some((None, s.skip(1)))
    } else if s.len() >= 1 && s[0] == 's' {
        match dec_hex(s.skip(1), 32) {
            Some((v, r)) => Some((Some(v as u128), r)),
            None => None,
        }
    } else {
        None
    }
}

/// The whole envelope; fails unless every field parses and nothing trails.
pub open spec fn decode_spec(s: Seq<char>) -> Option<ChatMessageModel> {
    match dec_hex(s, 32) {
        None => None,
        Some((id, r1)) => match dec_hex(r1, 32) {
            None => None,
            Some((chat_id, r2)) => match dec_answer(r2) {
                None => None,
                Some((answer, r3)) => match dec_str(r3) {
                    None => None,
                    Some((content, r4)) => match dec_hex(r4, 16) {
                        None => None,
                        Some((count, r5)) => match dec_participants(r5, count) {
                            None => None,
                            Some((ps, r6)) => if r6.len() == 0 {
                                Some(
                                    ChatMessageModel {
                                        participants: ps,
                                        content,
                                        id: id as u128,
                                        chat_id: chat_id as u128,
                                        answer_to: answer,
                                    },
                                )
                            } else {
                                None
                            },
                        },
                    },
                },
            },
        },
    }
}

// ---------------------------------------------------------------------------
// The round trip: each decoder recovers what the matching encoder wrote,
// whatever follows it in the input.
// ---------------------------------------------------------------------------
proof fn lemma_dec_hex_enc(v: nat, k: nat, rest: Seq<char>)
    requires
        v < pow16(k),
    ensures
        dec_hex(hex_seq(v, k) + rest, k) == Some((v, rest)),
{
    let h = hex_seq(v, k);
    lemma_hex_seq_len(v, k);
    lemma_hex_seq_all_hex(v, k);
    lemma_hex_seq_val(v, k);
    assert((h + rest).take(k as int) =~= h);
    assert((h + rest).skip(k as int) =~= rest);
}

proof fn lemma_dec_str_enc(p: Seq<char>, rest: Seq<char>)
    requires
        p.len() < pow16(16),
    ensures
        dec_str(enc_str(p) + rest) == Some((p, rest)),
{
    assert(enc_str(p) + rest =~= hex_seq(p.len(), 16) + (p + rest));
    lemma_dec_hex_enc(p.len(), 16, p + rest);
    assert((p + rest).take(p.len() as int) =~= p);
    assert((p + rest).skip(p.len() as int) =~= rest);
}

proof fn lemma_dec_answer_enc(a: Option<u128>, rest: Seq<char>)
    ensures
        dec_answer(enc_answer(a) + rest) == Some((a, rest)),
{
    match a {
        None => {
            let s = enc_answer(a) + rest;
            assert(s[0] == 'n');
            assert(s.skip(1) =~= rest);
        },
        Some(v) => {
            let s = enc_answer(a) + rest;
            assert(s[0] == 's');
            assert(s.skip(1) =~= hex_seq(v as nat, 32) + rest);
            lemma_pow16_values();
            lemma_dec_hex_enc(v as nat, 32, rest);
        },
    }
}

proof fn lemma_dec_participants_enc(ps: Seq<Seq<char>>, rest: Seq<char>)
    requires
        forall|i: int| 0 <= i < ps.len() ==> (#[trigger] ps[i]).len() < pow16(16),
    ensures
        dec_participants(enc_participants(ps) + rest, ps.len()) == Some((ps, rest)),
    decreases ps.len(),
{
    if ps.len() == 0 {
        assert(enc_participants(ps) + rest =~= rest);
    } else {
        let tail = ps.drop_first();
        assert(enc_participants(ps) + rest =~= enc_str(ps.first()) + (enc_participants(tail)
            + rest));
        lemma_dec_str_enc(ps.first(), enc_participants(tail) + rest);
        lemma_dec_participants_enc(tail, rest);
        assert(seq![ps.first()] + tail =~= ps);
    }
}

/// The round-trip law: a well-formed message is recovered, field for field,
/// from its own encoding.
pub proof fn lemma_encode_decode(m: ChatMessageModel)
    requires
        m.wf(),
    ensures
        decode_spec(encode_spec(m)) == Some(m),
{
    lemma_pow16_values();
    let a = hex_seq(m.id as nat, 32);
    let b = hex_seq(m.chat_id as nat, 32);
    let c = enc_answer(m.answer_to);
    let d = enc_str(m.content);
    let e = hex_seq(m.participants.len(), 16);
    let f = enc_participants(m.participants);
    let r1 = b + c + d + e + f;
    let r2 = c + d + e + f;
    let r3 = d + e + f;
    let r4 = e + f;
    assert(encode_spec(m) =~= a + r1);
    lemma_dec_hex_enc(m.id as nat, 32, r1);
    assert(r1 =~= b + r2);
    lemma_dec_hex_enc(m.chat_id as nat, 32, r2);
    assert(r2 =~= c + r3);
    lemma_dec_answer_enc(m.answer_to, r3);
    assert(r3 =~= d + r4);
    lemma_dec_str_enc(m.content, r4);
    assert(r4 =~= e + f);
    lemma_dec_hex_enc(m.participants.len(), 16, f);
    assert(f =~= enc_participants(m.participants) + Seq::<char>::empty());
    lemma_dec_participants_enc(m.participants, Seq::<char>::empty());
}

// ---------------------------------------------------------------------------
// The executable encoder.
// ---------------------------------------------------------------------------
/// Appending one participant to the list appends its field to the encoding.
proof fn lemma_enc_participants_push(ps: Seq<Seq<char>>, x: Seq<char>)
    ensures
        enc_participants(ps.push(x)) == enc_participants(ps) + enc_str(x),
    decreases ps.len(),
{
    if ps.len() == 0 {
        assert(ps.push(x).first() == x);
        assert(ps.push(x).drop_first() =~= Seq::<Seq<char>>::empty());
        assert(enc_participants(Seq::<Seq<char>>::empty()) == Seq::<char>::empty());
        assert(enc_participants(ps.push(x)) == enc_str(x) + Seq::<char>::empty());
        assert(enc_str(x) + Seq::<char>::empty() =~= Seq::<char>::empty() + enc_str(x));
        assert(enc_participants(ps) == Seq::<char>::empty());
    } else {
        assert(ps.push(x).first() == ps.first());
        assert(ps.push(x).drop_first() =~= ps.drop_first().push(x));
        lemma_enc_participants_push(ps.drop_first(), x);
        assert(enc_participants(ps.push(x)) =~= enc_participants(ps) + enc_str(x));
    }
}

/// Serializes the envelope.  Encoding is total: every message held in memory
/// is well formed (its lengths fit the length fields), so this cannot fail.
pub fn encode_message(m: &ChatMessage) -> (r: String)
    ensures
        r@ == encode_spec(m@),
        m@.wf(),
{
    let mut out = hex_encode(m.id, 32);
    let chat = hex_encode(m.chat_id, 32);
    out.append(chat.as_str());
    match m.answer_to {
        None => {
            proof {
                reveal_strlit("n");
            }
            out.append("n");
            proof {
                assert(out@ =~= hex_seq(m.id as nat, 32) + hex_seq(m.chat_id as nat, 32)
                    + enc_answer(m.answer_to));
            }
        },
        Some(v) => {
            proof {
                reveal_strlit("s");
            }
            out.append("s");
            let h = hex_encode(v, 32);
            out.append(h.as_str());
            proof {
                assert(out@ =~= hex_seq(m.id as nat, 32) + hex_seq(m.chat_id as nat, 32)
                    + enc_answer(m.answer_to));
            }
        },
    }
    let clen = m.content.as_str().unicode_len();
    let lenh = hex_encode(clen as u128, 16);
    out.append(lenh.as_str());
    out.append(m.content.as_str());
    let ghost head = hex_seq(m@.id as nat, 32) + hex_seq(m@.chat_id as nat, 32) + enc_answer(
        m@.answer_to,
    ) + enc_str(m@.content);
    proof {
        assert(out@ =~= head);
    }
    let pcount = m.participants.len();
    let cnth = hex_encode(pcount as u128, 16);
    out.append(cnth.as_str());
    let ghost head2 = head + hex_seq(m@.participants.len(), 16);
    proof {
        assert(out@ =~= head2);
    }
    let mut i: usize = 0;
    while i < pcount
        invariant
            pcount == m.participants.len(),
            i <= pcount,
            out@ == head2 + enc_participants(m@.participants.take(i as int)),
            forall|j: int|
                0 <= j < i ==> (#[trigger] m@.participants[j]).len() < pow16(16),
        decreases pcount - i,
    {
        let p = &m.participants[i];
        let plen = p.as_str().unicode_len();
        let ph = hex_encode(plen as u128, 16);
        out.append(ph.as_str());
        out.append(p.as_str());
        proof {
            lemma_pow16_values();
            let taken = m@.participants.take(i as int);
            lemma_enc_participants_push(taken, p@);
            assert(m@.participants.take(i + 1) =~= taken.push(p@));
            assert(out@ =~= head2 + enc_participants(m@.participants.take(i + 1)));
        }
        i = i + 1;
    }
    proof {
        lemma_pow16_values();
        assert(m@.participants.take(pcount as int) =~= m@.participants);
        assert(out@ =~= encode_spec(m@));
    }
    out
}

// ---------------------------------------------------------------------------
// The executable decoder.  It walks the input with a character cursor; each
// step is proved to agree with the spec-level decoder on the corresponding
// remainder of the input.
// ---------------------------------------------------------------------------
/// The participant parse continued after `acc` entries are already read.
spec fn dec_participants_from(acc: Seq<Seq<char>>, s: Seq<char>, count: nat) -> Option<
    (Seq<Seq<char>>, Seq<char>),
> {
    match dec_participants(s, count) {
        Some((ps, r)) => Some((acc + ps, r)),
        None => None,
    }
}

/// Reads `k` hex digits at `pos`; `n` is the input's character count.
fn read_hex(s: &str, n: usize, pos: usize, k: usize) -> (r: Option<(u128, usize)>)
    requires
        n as nat == s@.len(),
        pos <= n,
        1 <= k <= 32,
    ensures
        r matches Some(p) ==> p.1 == pos + k && p.1 <= n && dec_hex(
            s@.skip(pos as int),
            k as nat,
        ) == Some((p.0 as nat, s@.skip(p.1 as int))),
        r is None ==> dec_hex(s@.skip(pos as int), k as nat) is None,
{
    if k > n - pos {
        proof {
            assert(s@.skip(pos as int).len() < k as nat);
        }
        return None;
    }
    proof {
        assert(s@.skip(pos as int).take(k as int) =~= s@.subrange(pos as int, pos + k));
        assert(s@.skip(pos as int).skip(k as int) =~= s@.skip(pos + k));
    }
    match hex_decode(s, pos, k) {
        Some(v) => Some((v, pos + k)),
        None => None,
    }
}

/// Reads the reply-reference field at `pos`.
fn read_answer(s: &str, n: usize, pos: usize) -> (r: Option<(Option<u128>, usize)>)
    requires
        n as nat == s@.len(),
        pos <= n,
    ensures
        r matches Some(p) ==> p.1 <= n && dec_answer(s@.skip(pos as int)) == Some(
            (p.0, s@.skip(p.1 as int)),
        ),
        r is None ==> dec_answer(s@.skip(pos as int)) is None,
{
    if pos >= n {
        return None;
    }
    let c = s.get_char(pos);
    proof {
        assert(s@.skip(pos as int)[0] == c);
        assert(s@.skip(pos as int).skip(1) =~= s@.skip(pos + 1));
    }
    if c == 'n' {
        Some((None, pos + 1))
    } else if c == 's' {
        match read_hex(s, n, pos + 1, 32) {
            Some((v, np)) => Some((Some(v), np)),
            None => None,
        }
    } else {
        None
    }
}

/// Reads one length-prefixed string field at `pos`.
fn read_string(s: &str, n: usize, pos: usize) -> (r: Option<(String, usize)>)
    requires
        n as nat == s@.len(),
        pos <= n,
    ensures
        r matches Some(p) ==> p.1 <= n && dec_str(s@.skip(pos as int)) == Some(
            (p.0@, s@.skip(p.1 as int)),
        ),
        r is None ==> dec_str(s@.skip(pos as int)) is None,
{
    match read_hex(s, n, pos, 16) {
        None => None,
        Some((l128, p2)) => {
            if l128 > (n - p2) as u128 {
                proof {
                    assert(s@.skip(p2 as int).len() < l128 as nat);
                }
                None
            } else {
                let l = l128 as usize;
                let sub = s.substring_char(p2, p2 + l);
                let out = String::from_str(sub);
                proof {
                    assert(s@.skip(p2 as int).take(l as int) =~= s@.subrange(
                        p2 as int,
                        p2 + l,
                    ));
                    assert(s@.skip(p2 as int).skip(l as int) =~= s@.skip(p2 + l));
                }
                Some((out, p2 + l))
            }
        },
    }
}

/// Reads `count` string fields in a row, starting at `start`.
fn read_participants(s: &str, n: usize, start: usize, count: u128) -> (r: Option<
    (Vec<String>, usize),
>)
    requires
        n as nat == s@.len(),
        start <= n,
    ensures
        r matches Some(p) ==> p.1 <= n && dec_participants(s@.skip(start as int), count as nat)
            == Some((p.0.deep_view(), s@.skip(p.1 as int))),
        r is None ==> dec_participants(s@.skip(start as int), count as nat) is None,
{
    let mut acc: Vec<String> = Vec::new();
    let mut pos: usize = start;
    let mut remaining: u128 = count;
    proof {
        assert(acc.deep_view() =~= Seq::<Seq<char>>::empty());
    }
    while remaining > 0
        invariant
            n as nat == s@.len(),
            pos <= n,
            dec_participants_from(acc.deep_view(), s@.skip(pos as int), remaining as nat)
                == dec_participants_from(
                Seq::<Seq<char>>::empty(),
                s@.skip(start as int),
                count as nat,
            ),
        decreases remaining,
    {
        let ghost accv = acc.deep_view();
        let ghost rem_s = s@.skip(pos as int);
        match read_string(s, n, pos) {
            None => {
                proof {
                    assert(dec_participants(rem_s, remaining as nat) is None);
                    assert(dec_participants_from(accv, rem_s, remaining as nat) is None);
                    lemma_dec_participants_from_empty(s@.skip(start as int), count as nat);
                }
                return None;
            },
            Some((p, np)) => {
                let ghost pv = p@;
                proof {
                    let tail = dec_participants(s@.skip(np as int), (remaining - 1) as nat);
                    match tail {
                        Some((ps, r)) => {
                            assert(dec_participants(rem_s, remaining as nat) == Some(
                                (seq![pv] + ps, r),
                            ));
                            assert(accv + (seq![pv] + ps) =~= accv.push(pv) + ps);
                        },
                        None => {
                            assert(dec_participants(rem_s, remaining as nat) is None);
                        },
                    }
                }
                acc.push(p);
                proof {
                    assert(acc.deep_view() =~= accv.push(pv));
                }
                pos = np;
                remaining = remaining - 1;
            },
        }
    }
    proof {
        assert(dec_participants(s@.skip(pos as int), 0) == Some(
            (Seq::<Seq<char>>::empty(), s@.skip(pos as int)),
        ));
        assert(acc.deep_view() + Seq::<Seq<char>>::empty() =~= acc.deep_view());
        lemma_dec_participants_from_empty(s@.skip(start as int), count as nat);
    }
    Some((acc, pos))
}

/// Continuing from no entries is the plain parse.
proof fn lemma_dec_participants_from_empty(s: Seq<char>, count: nat)
    ensures
        dec_participants_from(Seq::<Seq<char>>::empty(), s, count) == dec_participants(s, count),
{
    match dec_participants(s, count) {
        Some((ps, r)) => {
            assert(Seq::<Seq<char>>::empty() + ps =~= ps);
        },
        None => {
        },
    }
}

/// Deserializes an envelope.  Succeeds exactly on the strings that the
/// spec-level decoder accepts, and returns the message it denotes; any
/// malformed input — short fields, a bad digit, trailing characters — is
/// rejected.
pub fn decode_message(s: &str) -> (r: Option<ChatMessage>)
    ensures
        r matches Some(m) ==> decode_spec(s@) == Some(m@),
        r is None ==> decode_spec(s@) is None,
{
    let n = s.unicode_len();
    proof {
        assert(s@.skip(0) =~= s@);
    }
    let (id, p1) = match read_hex(s, n, 0, 32) {
        Some(x) => x,
        None => {
            return None;
        },
    };
    let (chat_id, p2) = match read_hex(s, n, p1, 32) {
        Some(x) => x,
        None => {
            return None;
        },
    };
    let (answer, p3) = match read_answer(s, n, p2) {
        Some(x) => x,
        None => {
            return None;
        },
    };
    let (content, p4) = match read_string(s, n, p3) {
        Some(x) => x,
        None => {
            return None;
        },
    };
    let (count, p5) = match read_hex(s, n, p4, 16) {
        Some(x) => x,
        None => {
            return None;
        },
    };
    let (acc, pos) = match read_participants(s, n, p5, count) {
        Some(x) => x,
        None => {
            return None;
        },
    };
    if pos < n {
        proof {
            assert(s@.skip(pos as int).len() > 0);
        }
        return None;
    }
    proof {
        assert(s@.skip(pos as int).len() == 0);
    }
    let m = ChatMessage { participants: acc, content, id, chat_id, answer_to: answer };
    Some(m)
}

} // verus!
