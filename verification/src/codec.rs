//! The session's persisted form: a line-oriented byte encoding of its
//! identity and its two maps, with a proved save/load round trip.
//!
//! Layout: the name line, the host line, one `key TAB value` line per
//! cookie, a blank line, then one such line per default header.

use vstd::prelude::*;
use crate::bytes::{bytes_range, find_byte, find_byte_from, push_bytes};
use crate::bytes::{lemma_find_byte_first, lemma_find_byte_planted};
use crate::session::{clean, entries_wf, entry_wf, kv_view, Session};

verus! {

pub open spec fn line_of(c: Seq<u8>) -> Seq<u8> {
    c + seq![10u8]
}

pub open spec fn entry_line(p: (Seq<u8>, Seq<u8>)) -> Seq<u8> {
    p.0 + seq![9u8] + p.1
}

pub open spec fn lines_of(e: Seq<(Seq<u8>, Seq<u8>)>) -> Seq<u8>
    decreases e.len(),
{
    if e.len() == 0 {
        Seq::empty()
    } else {
        line_of(entry_line(e[0])) + lines_of(e.drop_first())
    }
}

/// The whole encoded record.
pub open spec fn spec_encode(
    name: Seq<u8>,
    host: Seq<u8>,
    cookies: Seq<(Seq<u8>, Seq<u8>)>,
    headers: Seq<(Seq<u8>, Seq<u8>)>,
) -> Seq<u8> {
    line_of(name) + line_of(host) + lines_of(cookies) + seq![10u8] + lines_of(headers)
}

/// Splits off the first newline-terminated line.
pub open spec fn take_line(b: Seq<u8>) -> Option<(Seq<u8>, Seq<u8>)> {
    match find_byte_from(b, 10u8, 0) {
        Some(i) => Some((b.subrange(0, i), b.subrange(i + 1, b.len() as int))),
        None => None,
    }
}

/// Splits an entry line at its first tab.
pub open spec fn dec_entry(c: Seq<u8>) -> Option<(Seq<u8>, Seq<u8>)> {
    match find_byte_from(c, 9u8, 0) {
        Some(t) => Some((c.subrange(0, t), c.subrange(t + 1, c.len() as int))),
        None => None,
    }
}

/// Reads entry lines; with `until_blank` they end at a blank line, whose
/// remainder is handed back, otherwise they must fill the input exactly.
pub open spec fn dec_entries(b: Seq<u8>, until_blank: bool) -> Option<
    (Seq<(Seq<u8>, Seq<u8>)>, Seq<u8>),
>
    decreases b.len(),
    via dec_entries_decreases
{
    if !until_blank && b.len() == 0 {
        Some((Seq::empty(), Seq::empty()))
    } else {
        match take_line(b) {
            None => None,
            Some((c, rest)) => {
                if until_blank && c.len() == 0 {
                    Some((Seq::empty(), rest))
                } else {
                    match dec_entry(c) {
                        None => None,
                        Some(p) => match dec_entries(rest, until_blank) {
                            None => None,
                            Some((es, r2)) => Some((seq![p] + es, r2)),
                        },
                    }
                }
            },
        }
    }
}

#[via_fn]
proof fn dec_entries_decreases(b: Seq<u8>, until_blank: bool) {
    match find_byte_from(b, 10u8, 0) {
        Some(i) => lemma_find_byte_first(b, 10u8, 0, i),
        None => {},
    }
}

/// The whole decoded record, accepted only when well formed.
pub open spec fn spec_decode(b: Seq<u8>) -> Option<
    (Seq<u8>, Seq<u8>, Seq<(Seq<u8>, Seq<u8>)>, Seq<(Seq<u8>, Seq<u8>)>),
> {
    match take_line(b) {
        None => None,
        Some((name, r1)) => match take_line(r1) {
            None => None,
            Some((host, r2)) => match dec_entries(r2, true) {
                None => None,
                Some((cookies, r3)) => match dec_entries(r3, false) {
                    None => None,
                    Some((headers, _r4)) => if clean(name) && clean(host) && entries_wf(cookies)
                        && entries_wf(headers) {
                        Some((name, host, cookies, headers))
                    } else {
                        None
                    },
                },
            },
        },
    }
}

proof fn lemma_take_line_of(c: Seq<u8>, rest: Seq<u8>)
    requires
        forall|i: int| 0 <= i < c.len() ==> c[i] != 10u8,
    ensures
        take_line(line_of(c) + rest) == Some((c, rest)),
{
    let s = line_of(c) + rest;
    assert(s =~= c + seq![10u8] + rest);
    lemma_find_byte_planted(c, 10u8, rest, 0);
    assert(s.subrange(0, c.len() as int) =~= c);
    assert(s.subrange(c.len() as int + 1, s.len() as int) =~= rest);
}

proof fn lemma_dec_entry_of(k: Seq<u8>, v: Seq<u8>)
    requires
        forall|i: int| 0 <= i < k.len() ==> k[i] != 9u8,
    ensures
        dec_entry(entry_line((k, v))) == Some((k, v)),
{
    let c = entry_line((k, v));
    assert(c =~= k + seq![9u8] + v);
    lemma_find_byte_planted(k, 9u8, v, 0);
    assert(c.subrange(0, k.len() as int) =~= k);
    assert(c.subrange(k.len() as int + 1, c.len() as int) =~= v);
}

proof fn lemma_entry_line_has_no_newline(p: (Seq<u8>, Seq<u8>))
    requires
        entry_wf(p),
    ensures
        forall|i: int| 0 <= i < entry_line(p).len() ==> entry_line(p)[i] != 10u8,
        entry_line(p).len() > 0,
{
    let c = entry_line(p);
    assert forall|i: int| 0 <= i < c.len() implies c[i] != 10u8 by {
        if i < p.0.len() {
            assert(c[i] == p.0[i]);
        } else if i == p.0.len() {
            assert(c[i] == 9u8);
        } else {
            assert(c[i] == p.1[i - p.0.len() - 1]);
        }
    }
}

proof fn lemma_dec_entries_round(e: Seq<(Seq<u8>, Seq<u8>)>, tail: Seq<u8>)
    requires
        forall|i: int| 0 <= i < e.len() ==> entry_wf(#[trigger] e[i]),
    ensures
        dec_entries(lines_of(e) + seq![10u8] + tail, true) == Some((e, tail)),
    decreases e.len(),
{
    let b = lines_of(e) + seq![10u8] + tail;
    if e.len() == 0 {
        assert(b =~= line_of(Seq::<u8>::empty()) + tail);
        lemma_take_line_of(Seq::<u8>::empty(), tail);
        assert(seq![] + Seq::<(Seq<u8>, Seq<u8>)>::empty() =~= Seq::<(Seq<u8>, Seq<u8>)>::empty());
    } else {
        let p = e[0];
        let c = entry_line(p);
        let after = lines_of(e.drop_first()) + seq![10u8] + tail;
        assert(b =~= line_of(c) + after);
        lemma_entry_line_has_no_newline(p);
        lemma_take_line_of(c, after);
        lemma_dec_entry_of(p.0, p.1);
        lemma_dec_entries_round(e.drop_first(), tail);
        assert(seq![p] + e.drop_first() =~= e);
    }
}

proof fn lemma_dec_entries_flat(e: Seq<(Seq<u8>, Seq<u8>)>)
    requires
        forall|i: int| 0 <= i < e.len() ==> entry_wf(#[trigger] e[i]),
    ensures
        dec_entries(lines_of(e), false) == Some((e, Seq::<u8>::empty())),
    decreases e.len(),
{
    if e.len() == 0 {
        assert(lines_of(e).len() == 0);
    } else {
        let p = e[0];
        let c = entry_line(p);
        let after = lines_of(e.drop_first());
        assert(lines_of(e) =~= line_of(c) + after);
        lemma_entry_line_has_no_newline(p);
        lemma_take_line_of(c, after);
        assert(lines_of(e).len() > 0);
        lemma_dec_entry_of(p.0, p.1);
        lemma_dec_entries_flat(e.drop_first());
        assert(seq![p] + e.drop_first() =~= e);
    }
}

/// Saving a well-formed session and loading the bytes back yields the
/// session exactly: its name, host, cookie map and header map, entry for
/// entry.
pub proof fn lemma_save_load_round_trip(
    name: Seq<u8>,
    host: Seq<u8>,
    cookies: Seq<(Seq<u8>, Seq<u8>)>,
    headers: Seq<(Seq<u8>, Seq<u8>)>,
)
    requires
        clean(name),
        clean(host),
        entries_wf(cookies),
        entries_wf(headers),
    ensures
        spec_decode(spec_encode(name, host, cookies, headers)) == Some(
            (name, host, cookies, headers),
        ),
{
    let b = spec_encode(name, host, cookies, headers);
    let r1 = line_of(host) + lines_of(cookies) + seq![10u8] + lines_of(headers);
    let r2 = lines_of(cookies) + seq![10u8] + lines_of(headers);
    assert(b =~= line_of(name) + r1);
    lemma_take_line_of(name, r1);
    assert(r1 =~= line_of(host) + r2);
    lemma_take_line_of(host, r2);
    lemma_dec_entries_round(cookies, lines_of(headers));
    lemma_dec_entries_flat(headers);
}

proof fn lemma_lines_push(pre: Seq<(Seq<u8>, Seq<u8>)>, x: (Seq<u8>, Seq<u8>))
    ensures
        lines_of(pre.push(x)) == lines_of(pre) + line_of(entry_line(x)),
    decreases pre.len(),
{
    if pre.len() == 0 {
        assert(pre.push(x)[0] == x);
        assert(pre.push(x).drop_first() =~= Seq::<(Seq<u8>, Seq<u8>)>::empty());
        assert(lines_of(Seq::<(Seq<u8>, Seq<u8>)>::empty()) == Seq::<u8>::empty());
        assert(lines_of(pre.push(x)) =~= lines_of(pre) + line_of(entry_line(x)));
    } else {
        assert(pre.push(x)[0] == pre[0]);
        assert(pre.push(x).drop_first() =~= pre.drop_first().push(x));
        lemma_lines_push(pre.drop_first(), x);
        assert(lines_of(pre.push(x)) == line_of(entry_line(pre[0])) + (lines_of(pre.drop_first())
            + line_of(entry_line(x))));
        assert(lines_of(pre.push(x)) =~= lines_of(pre) + line_of(entry_line(x)));
    }
}

/// Appends the entry lines of `e` to `out`.
fn push_lines(out: &mut Vec<u8>, e: &Vec<(Vec<u8>, Vec<u8>)>)
    ensures
        final(out)@ == old(out)@ + lines_of(kv_view(e@)),
{
    let ghost ev = kv_view(e@);
    proof {
        assert(ev.subrange(0, 0) =~= Seq::<(Seq<u8>, Seq<u8>)>::empty());
    }
    let mut i: usize = 0;
    while i < e.len()
        invariant
            i <= e@.len(),
            ev == kv_view(e@),
            ev.len() == e@.len(),
            out@ == old(out)@ + lines_of(ev.subrange(0, i as int)),
        decreases e@.len() - i,
    {
        push_bytes(out, e[i].0.as_slice());
        out.push(9u8);
        push_bytes(out, e[i].1.as_slice());
        out.push(10u8);
        i = i + 1;
        proof {
            let prefix = ev.subrange(0, i - 1);
            assert(prefix.push(ev[i - 1]) =~= ev.subrange(0, i as int));
            lemma_lines_push(prefix, ev[i - 1]);
            assert(out@ =~= old(out)@ + lines_of(prefix) + line_of(entry_line(ev[i - 1])));
            assert(out@ =~= old(out)@ + lines_of(ev.subrange(0, i as int)));
        }
    }
    proof {
        assert(ev.subrange(0, ev.len() as int) =~= ev);
    }
}

/// Serializes a session to its on-disk byte form.
pub fn encode(s: &Session) -> (r: Vec<u8>)
    ensures
        r@ == spec_encode(s.name@, s.host@, kv_view(s.cookies@), kv_view(s.headers@)),
{
    let mut out: Vec<u8> = Vec::new();
    push_bytes(&mut out, s.name.as_slice());
    out.push(10u8);
    push_bytes(&mut out, s.host.as_slice());
    out.push(10u8);
    push_lines(&mut out, &s.cookies);
    out.push(10u8);
    push_lines(&mut out, &s.headers);
    proof {
        assert(out@ =~= spec_encode(s.name@, s.host@, kv_view(s.cookies@), kv_view(s.headers@)));
    }
    out
}

/// Splits off the first line, executably.
fn take_line_exec(b: &[u8]) -> (r: Option<(Vec<u8>, Vec<u8>)>)
    ensures
        match r {
            Some(p) => take_line(b@) == Some((p.0@, p.1@)),
            None => take_line(b@) is None,
        },
{
    let n = b.len();
    match find_byte(b, 10u8) {
        Some(i) => {
            proof {
                lemma_find_byte_first(b@, 10u8, 0, i as int);
            }
            let content = bytes_range(b, 0, i);
            let rest = bytes_range(b, i + 1, n);
            Some((content, rest))
        },
        None => None,
    }
}

/// Splits an entry line at its first tab, executably.
fn dec_entry_exec(c: &Vec<u8>) -> (r: Option<(Vec<u8>, Vec<u8>)>)
    ensures
        match r {
            Some(p) => dec_entry(c@) == Some((p.0@, p.1@)),
            None => dec_entry(c@) is None,
        },
{
    let n = c.len();
    match find_byte(c.as_slice(), 9u8) {
        Some(t) => {
            proof {
                lemma_find_byte_first(c@, 9u8, 0, t as int);
            }
            let k = bytes_range(c.as_slice(), 0, t);
            let v = bytes_range(c.as_slice(), t + 1, n);
            Some((k, v))
        },
        None => None,
    }
}

/// Reads entry lines, executably.
fn dec_entries_exec(b: &Vec<u8>, until_blank: bool) -> (r: Option<
    (Vec<(Vec<u8>, Vec<u8>)>, Vec<u8>),
>)
    ensures
        match r {
            Some(p) => dec_entries(b@, until_blank) == Some((kv_view(p.0@), p.1@)),
            None => dec_entries(b@, until_blank) is None,
        },
    decreases b@.len(),
{
    if !until_blank && b.len() == 0 {
        let es: Vec<(Vec<u8>, Vec<u8>)> = Vec::new();
        let rest: Vec<u8> = Vec::new();
        proof {
            assert(kv_view(es@) =~= Seq::<(Seq<u8>, Seq<u8>)>::empty());
            assert(rest@ =~= Seq::<u8>::empty());
        }
        return Some((es, rest));
    }
    match take_line_exec(b.as_slice()) {
        None => None,
        Some((content, rest)) => {
            if until_blank && content.len() == 0 {
                let es: Vec<(Vec<u8>, Vec<u8>)> = Vec::new();
                proof {
                    assert(kv_view(es@) =~= Seq::<(Seq<u8>, Seq<u8>)>::empty());
                    assert(content@ =~= Seq::<u8>::empty());
                }
                return Some((es, rest));
            }
            match dec_entry_exec(&content) {
                None => None,
                Some((k, v)) => {
                    proof {
                        match find_byte_from(b@, 10u8, 0) {
                            Some(i) => lemma_find_byte_first(b@, 10u8, 0, i),
                            None => {},
                        }
                    }
                    match dec_entries_exec(&rest, until_blank) {
                        None => None,
                        Some((mut es, r2)) => {
                            let ghost tailv = kv_view(es@);
                            es.insert(0, (k, v));
                            proof {
                                assert(kv_view(es@) =~= seq![(k@, v@)] + tailv);
                            }
                            Some((es, r2))
                        },
                    }
                },
            }
        },
    }
}

/// Checks that a byte string carries none of the codec's delimiters.
pub fn is_clean(s: &[u8]) -> (r: bool)
    ensures
        r == clean(s@),
{
    let mut i: usize = 0;
    while i < s.len()
        invariant
            i <= s@.len(),
            forall|j: int| 0 <= j < i ==> s@[j] != 10u8 && s@[j] != 9u8,
        decreases s@.len() - i,
    {
        if s[i] == 10u8 || s[i] == 9u8 {
            return false;
        }
        i = i + 1;
    }
    true
}

/// Checks whole-map well-formedness: clean fields, nonempty keys, and
/// pairwise distinct keys.
pub fn entries_wf_exec(e: &Vec<(Vec<u8>, Vec<u8>)>) -> (r: bool)
    ensures
        r == entries_wf(kv_view(e@)),
{
    let ghost ev = kv_view(e@);
    let mut i: usize = 0;
    while i < e.len()
        invariant
            i <= e@.len(),
            ev == kv_view(e@),
            ev.len() == e@.len(),
            forall|a: int| 0 <= a < i ==> entry_wf(#[trigger] ev[a]),
            forall|a: int, b: int| 0 <= a < b < i ==> ev[a].0 != ev[b].0,
        decreases e@.len() - i,
    {
        if !is_clean(e[i].0.as_slice()) || !is_clean(e[i].1.as_slice()) || e[i].0.len() == 0 {
            proof {
                assert(!entry_wf(ev[i as int]));
            }
            return false;
        }
        let mut j: usize = 0;
        while j < i
            invariant
                j <= i < e@.len(),
                ev == kv_view(e@),
                ev.len() == e@.len(),
                forall|a: int| 0 <= a < j ==> ev[a].0 != ev[i as int].0,
            decreases i - j,
        {
            if crate::bytes::bytes_eq(e[j].0.as_slice(), e[i].0.as_slice()) {
                proof {
                    assert(ev[j as int].0 == ev[i as int].0);
                    assert(!entries_wf(ev));
                }
                return false;
            }
            j = j + 1;
        }
        i = i + 1;
    }
    true
}

/// Deserializes a session record; yields nothing on any malformed or
/// ill-formed input.
pub fn decode(b: &[u8]) -> (r: Option<Session>)
    ensures
        match r {
            Some(s) => spec_decode(b@) == Some(
                (s.name@, s.host@, kv_view(s.cookies@), kv_view(s.headers@)),
            ) && s.wf(),
            None => spec_decode(b@) is None,
        },
{
    match take_line_exec(b) {
        None => None,
        Some((name, r1)) => match take_line_exec(r1.as_slice()) {
            None => None,
            Some((host, r2)) => match dec_entries_exec(&r2, true) {
                None => None,
                Some((cookies, r3)) => match dec_entries_exec(&r3, false) {
                    None => None,
                    Some((headers, _r4)) => {
                        if is_clean(name.as_slice()) && is_clean(host.as_slice())
                            && entries_wf_exec(&cookies) && entries_wf_exec(&headers) {
                            Some(Session { name, host, cookies, headers })
                        } else {
                            None
                        }
                    },
                },
            },
        },
    }
}

} // verus!
