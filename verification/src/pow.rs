//! The admission gate: a signed, time-bounded puzzle that a caller has to
//! solve before a comment is taken.
//!
//! A challenge is the text `time.random.signature`. The guard keeps no record
//! of what it issued: the signature shows that a challenge is its own. It
//! does keep what was solved, for as long as that could be handed in again,
//! so that a solved challenge is taken once.

use vstd::prelude::*;
use vstd::string::*;
use vstd::utf8::encode_utf8;
use crate::encoding::{
    digits_value, hex_of, is_digit, is_hex_digit, is_numeral, lemma_hex_of_digits,
    lemma_numeral_round_trip, numeral_of, parse_numeral, push_bytes, to_numeral,
};
use crate::foreign::{hex_encode, now_millis, random_bytes, sha256, sha256_digest};
use crate::identity::{hmac_sha256, keyed_digest};
use crate::text::{chars_of, find_char, index_of_char, lemma_index_of_char, slice_of, str_eq};

verus! {

/// How many hexadecimal digits of the digest of challenge and answer have to be zero.
pub const DIFFICULTY: usize = 4;

/// For how many seconds after its issue a challenge can be answered.
pub const MAX_AGE_SECS: u64 = 300;

/// By how many seconds the time of issue may lie ahead of the guard's clock.
pub const MAX_SKEW_SECS: u64 = 30;

/// What separates the three parts of a challenge.
pub const DOT: char = '.';

/// The three parts of a challenge, joined.
pub open spec fn joined(time: Seq<char>, random: Seq<char>, signature: Seq<char>) -> Seq<char> {
    time + seq![DOT] + random + seq![DOT] + signature
}

/// The parts of a challenge that are signed.
pub open spec fn signed_part(time: Seq<char>, random: Seq<char>) -> Seq<char> {
    time + seq![DOT] + random
}

/// The signature that a guard with this secret gives to time and random part.
pub open spec fn signature_of(secret: Seq<u8>, time: Seq<char>, random: Seq<char>) -> Seq<char> {
    hex_of(keyed_digest(secret, encode_utf8(signed_part(time, random))))
}

/// The challenge that a guard with this secret issues at a time, with given
/// random bytes.
pub open spec fn challenge_text(secret: Seq<u8>, issued_at: nat, random: Seq<u8>) -> Seq<char> {
    joined(
        numeral_of(issued_at),
        hex_of(random),
        signature_of(secret, numeral_of(issued_at), hex_of(random)),
    )
}

/// The three parts of a challenge: what stands before the first dot, between
/// the first and the second, and after the second. A text with fewer or more
/// dots than two has none.
pub open spec fn challenge_fields(c: Seq<char>) -> Option<(Seq<char>, Seq<char>, Seq<char>)> {
    if !c.contains(DOT) {
        None
    } else {
        let i = index_of_char(c, DOT);
        let rest = c.skip(i + 1);
        if !rest.contains(DOT) {
            None
        } else {
            let j = index_of_char(rest, DOT);
            let signature = rest.skip(j + 1);
            if signature.contains(DOT) {
                None
            } else {
                Some((c.take(i), rest.take(j), signature))
            }
        }
    }
}

/// The time of issue that a challenge states, where it states one.
pub open spec fn stated_time(c: Seq<char>) -> Option<nat> {
    match challenge_fields(c) {
        Some((time, _, _)) => if is_numeral(time) && digits_value(time) <= u64::MAX {
            Some(digits_value(time))
        } else {
            None
        },
        None => None,
    }
}

/// One of the first hexadecimal digits of a digest, as a number.
pub open spec fn digest_digit(digest: Seq<u8>, i: int) -> int {
    if i % 2 == 0 {
        digest[i / 2] as int / 16
    } else {
        digest[i / 2] as int % 16
    }
}

/// The digest begins with as many zero digits as are asked for.
pub open spec fn meets_difficulty(digest: Seq<u8>) -> bool {
    DIFFICULTY <= 2 * digest.len() && forall|i: int|
        0 <= i < DIFFICULTY ==> #[trigger] digest_digit(digest, i) == 0
}

/// The digest that an answer to a challenge is judged by.
pub open spec fn work_digest(challenge: Seq<char>, nonce: Seq<char>) -> Seq<u8> {
    sha256_digest(encode_utf8(challenge) + encode_utf8(nonce))
}

/// A challenge issued at `issued` can be answered at `t`.
pub open spec fn in_window(issued: nat, t: nat) -> bool {
    issued <= t + MAX_SKEW_SECS && t <= issued + MAX_AGE_SECS
}

/// A challenge that was answered, and the time of issue that it states.
#[derive(Debug)]
pub struct Spent {
    challenge: String,
    issued_at: u64,
}

/// A spent challenge as plain values.
pub struct SpentView {
    pub challenge: Seq<char>,
    pub issued_at: nat,
}

impl View for Spent {
    type V = SpentView;

    closed spec fn view(&self) -> SpentView {
        SpentView { challenge: self.challenge@, issued_at: self.issued_at as nat }
    }
}

/// The guard as plain values: its secret, the challenges that were answered
/// and can still be handed in, and the latest time it has seen.
pub struct PowGuardView {
    pub secret: Seq<u8>,
    pub spent: Seq<SpentView>,
    pub clock: nat,
}

/// The entries that are not yet too old to be handed in at `t`.
pub open spec fn unexpired(spent: Seq<SpentView>, t: nat) -> Seq<SpentView>
    decreases spent.len(),
{
    if spent.len() == 0 {
        spent
    } else {
        let rest = unexpired(spent.drop_last(), t);
        if t <= spent.last().issued_at + MAX_AGE_SECS {
            rest.push(spent.last())
        } else {
            rest
        }
    }
}

/// `c` is among the entries.
pub open spec fn listed(spent: Seq<SpentView>, c: Seq<char>) -> bool {
    exists|k: int| 0 <= k < spent.len() && (#[trigger] spent[k]).challenge == c
}

impl PowGuardView {
    /// Every entry carries the time that its challenge states.
    pub open spec fn wf(self) -> bool {
        forall|k: int|
            0 <= k < self.spent.len() ==> stated_time((#[trigger] self.spent[k]).challenge)
                == Some(self.spent[k].issued_at)
    }

    /// The time that the guard goes by when the clock shows `now`: its own
    /// clock never runs backwards.
    pub open spec fn time_at(self, now: nat) -> nat {
        if now > self.clock {
            now
        } else {
            self.clock
        }
    }

    /// Whether the guard takes `nonce` as the answer to `challenge` when the
    /// clock shows `now`: the challenge is its own, it is neither too old nor
    /// from the future, the work was done, and it was not answered before.
    pub open spec fn accepts(self, challenge: Seq<char>, nonce: Seq<char>, now: nat) -> bool {
        match challenge_fields(challenge) {
            None => false,
            Some((time, random, signature)) => {
                &&& signature == signature_of(self.secret, time, random)
                &&& stated_time(challenge) is Some
                &&& in_window(stated_time(challenge)->0, self.time_at(now))
                &&& !listed(self.spent, challenge)
                &&& meets_difficulty(work_digest(challenge, nonce))
            },
        }
    }

    /// The guard after it has judged an answer.
    pub open spec fn after(self, challenge: Seq<char>, nonce: Seq<char>, now: nat) -> PowGuardView {
        let t = self.time_at(now);
        let kept = unexpired(self.spent, t);
        PowGuardView {
            secret: self.secret,
            clock: t,
            spent: if self.accepts(challenge, nonce, now) {
                kept.push(SpentView { challenge, issued_at: stated_time(challenge)->0 })
            } else {
                kept
            },
        }
    }

    /// `c` will not be taken again: it is on the list, or so old that no
    /// later time lets it in.
    pub open spec fn used_up(self, c: Seq<char>) -> bool {
        listed(self.spent, c) || (stated_time(c) is Some && stated_time(c)->0 + MAX_AGE_SECS
            < self.clock)
    }
}

/// The guard of the admission gate.
#[derive(Debug)]
pub struct PowGuard {
    secret: Vec<u8>,
    spent: Vec<Spent>,
    clock: u64,
}

/// The entries of a list as plain values.
pub closed spec fn spent_views(v: Seq<Spent>) -> Seq<SpentView> {
    Seq::new(v.len(), |i: int| v[i]@)
}

impl View for PowGuard {
    type V = PowGuardView;

    closed spec fn view(&self) -> PowGuardView {
        PowGuardView {
            secret: self.secret@,
            spent: spent_views(self.spent@),
            clock: self.clock as nat,
        }
    }
}

/// What is kept of a list is on the list, and was not too old.
pub proof fn lemma_unexpired_members(spent: Seq<SpentView>, t: nat)
    ensures
        forall|e: SpentView| #[trigger]
            unexpired(spent, t).contains(e) <==> spent.contains(e) && t <= e.issued_at
                + MAX_AGE_SECS,
    decreases spent.len(),
{
    if spent.len() == 0 {
    } else {
        let rest = spent.drop_last();
        let last = spent.last();
        lemma_unexpired_members(rest, t);
        let kept = unexpired(rest, t);
        assert forall|e: SpentView| #[trigger]
            unexpired(spent, t).contains(e) <==> spent.contains(e) && t <= e.issued_at
                + MAX_AGE_SECS by {
            if unexpired(spent, t).contains(e) {
                let k = choose|k: int|
                    0 <= k < unexpired(spent, t).len() && unexpired(spent, t)[k] == e;
                if k < kept.len() {
                    assert(kept[k] == e);
                    assert(kept.contains(e));
                    let m = choose|m: int| 0 <= m < rest.len() && rest[m] == e;
                    assert(spent[m] == e);
                } else {
                    assert(e == last);
                    assert(spent[spent.len() - 1] == e);
                }
            }
            if spent.contains(e) && t <= e.issued_at + MAX_AGE_SECS {
                let m = choose|m: int| 0 <= m < spent.len() && spent[m] == e;
                if m < rest.len() {
                    assert(rest[m] == e);
                    assert(rest.contains(e));
                    assert(unexpired(rest, t).contains(e));
                    let k = choose|k: int| 0 <= k < kept.len() && kept[k] == e;
                    assert(unexpired(spent, t)[k] == e);
                } else {
                    assert(e == last);
                    assert(unexpired(spent, t)[kept.len() as int] == e);
                }
            }
        }
    }
}

/// Three parts without a dot in them are read back from their joined form.
pub proof fn lemma_fields_of_joined(time: Seq<char>, random: Seq<char>, signature: Seq<char>)
    requires
        !time.contains(DOT),
        !random.contains(DOT),
        !signature.contains(DOT),
    ensures
        challenge_fields(joined(time, random, signature)) == Some((time, random, signature)),
{
    let c = joined(time, random, signature);
    let i = time.len() as int;
    assert(c[i] == DOT);
    assert forall|k: int| 0 <= k < i implies c[k] != DOT by {
        assert(c[k] == time[k]);
        assert(time.contains(time[k]));
    }
    lemma_index_of_char(c, DOT, i);
    let rest = c.skip(i + 1);
    assert(rest =~= random + seq![DOT] + signature);
    let j = random.len() as int;
    assert(rest[j] == DOT);
    assert forall|k: int| 0 <= k < j implies rest[k] != DOT by {
        assert(rest[k] == random[k]);
        assert(random.contains(random[k]));
    }
    lemma_index_of_char(rest, DOT, j);
    assert(rest.skip(j + 1) =~= signature);
    assert(c.take(i) =~= time);
    assert(rest.take(j) =~= random);
}

/// The parts of a challenge hold no dot, and joined they give the challenge.
pub proof fn lemma_joined_of_fields(c: Seq<char>)
    requires
        challenge_fields(c) is Some,
    ensures
        ({
            let (time, random, signature) = challenge_fields(c)->0;
            c == joined(time, random, signature) && !time.contains(DOT) && !random.contains(DOT)
                && !signature.contains(DOT)
        }),
{
    let i = index_of_char(c, DOT);
    let w = choose|w: int| 0 <= w < c.len() && c[w] == DOT;
    let first = first_dot_up_to(c, w);
    lemma_index_of_char(c, DOT, first);
    let rest = c.skip(i + 1);
    let j = index_of_char(rest, DOT);
    let w2 = choose|w2: int| 0 <= w2 < rest.len() && rest[w2] == DOT;
    let second = first_dot_up_to(rest, w2);
    lemma_index_of_char(rest, DOT, second);
    let (time, random, signature) = challenge_fields(c)->0;
    assert(c =~= joined(time, random, signature));
    if time.contains(DOT) {
        let k = choose|k: int| 0 <= k < time.len() && time[k] == DOT;
        assert(c[k] == DOT);
    }
    if random.contains(DOT) {
        let k = choose|k: int| 0 <= k < random.len() && random[k] == DOT;
        assert(rest[k] == DOT);
    }
}

/// Where a text holds a dot, there is a first index that holds one.
pub proof fn first_dot_up_to(s: Seq<char>, w: int) -> (i: int)
    requires
        0 <= w < s.len(),
        s[w] == DOT,
    ensures
        crate::text::first_index_of(s, DOT, i),
    decreases w,
{
    if exists|k: int| 0 <= k < w && s[k] == DOT {
        let k = choose|k: int| 0 <= k < w && s[k] == DOT;
        first_dot_up_to(s, k)
    } else {
        w
    }
}

/// A numeral holds no dot, and neither does hexadecimal text.
pub proof fn lemma_no_dot(issued_at: nat, random: Seq<u8>, secret: Seq<u8>)
    ensures
        !numeral_of(issued_at).contains(DOT),
        !hex_of(random).contains(DOT),
        !signature_of(secret, numeral_of(issued_at), hex_of(random)).contains(DOT),
{
    lemma_numeral_round_trip(issued_at);
    let n = numeral_of(issued_at);
    if n.contains(DOT) {
        let k = choose|k: int| 0 <= k < n.len() && n[k] == DOT;
        assert(is_digit(n[k]));
    }
    lemma_hex_of_digits(random);
    let h = hex_of(random);
    if h.contains(DOT) {
        let k = choose|k: int| 0 <= k < h.len() && h[k] == DOT;
        assert(is_hex_digit(h[k]));
    }
    let d = keyed_digest(secret, encode_utf8(signed_part(n, h)));
    lemma_hex_of_digits(d);
    let s = hex_of(d);
    if s.contains(DOT) {
        let k = choose|k: int| 0 <= k < s.len() && s[k] == DOT;
        assert(is_hex_digit(s[k]));
    }
}

/// A guard knows its own challenges: one that it has issued at a time that
/// fits is taken exactly if it is answered within the window, with the work
/// done, and for the first time.
pub proof fn lemma_issued_challenge(
    g: PowGuardView,
    issued_at: nat,
    random: Seq<u8>,
    nonce: Seq<char>,
    now: nat,
)
    requires
        issued_at <= u64::MAX,
    ensures
        ({
            let c = challenge_text(g.secret, issued_at, random);
            &&& stated_time(c) == Some(issued_at)
            &&& g.accepts(c, nonce, now) <==> in_window(issued_at, g.time_at(now)) && !listed(
                g.spent,
                c,
            ) && meets_difficulty(work_digest(c, nonce))
        }),
{
    lemma_no_dot(issued_at, random, g.secret);
    lemma_numeral_round_trip(issued_at);
    let time = numeral_of(issued_at);
    lemma_fields_of_joined(time, hex_of(random), signature_of(g.secret, time, hex_of(random)));
}

/// A challenge whose signature was changed is not taken, whatever the answer.
pub proof fn lemma_changed_signature_rejected(
    g: PowGuardView,
    time: Seq<char>,
    random: Seq<char>,
    signature: Seq<char>,
    forged: Seq<char>,
    nonce: Seq<char>,
    now: nat,
)
    requires
        challenge_fields(joined(time, random, signature)) == Some((time, random, signature)),
        signature == signature_of(g.secret, time, random),
        forged != signature,
    ensures
        !g.accepts(joined(time, random, forged), nonce, now),
{
    let c = joined(time, random, forged);
    if challenge_fields(c) is Some {
        lemma_joined_of_fields(joined(time, random, signature));
        lemma_joined_of_fields(c);
        let (t2, r2, s2) = challenge_fields(c)->0;
        if forged.contains(DOT) {
            // then the text has more than two dots, or its parts are others
            let k = choose|k: int| 0 <= k < forged.len() && forged[k] == DOT;
            let i = time.len() as int;
            assert(c[i] == DOT);
            assert forall|m: int| 0 <= m < i implies c[m] != DOT by {
                assert(c[m] == time[m]);
                assert(time.contains(time[m]));
            }
            lemma_index_of_char(c, DOT, i);
            let rest = c.skip(i + 1);
            assert(rest =~= random + seq![DOT] + forged);
            let j = random.len() as int;
            assert(rest[j] == DOT);
            assert forall|m: int| 0 <= m < j implies rest[m] != DOT by {
                assert(rest[m] == random[m]);
                assert(random.contains(random[m]));
            }
            lemma_index_of_char(rest, DOT, j);
            assert(rest.skip(j + 1) =~= forged);
            assert(false);
        } else {
            lemma_fields_of_joined(time, random, forged);
        }
    }
}

/// A challenge that states a time of issue more than the maximal age before
/// the clock is not taken, whatever the answer.
pub proof fn lemma_expired_rejected(g: PowGuardView, c: Seq<char>, nonce: Seq<char>, now: nat)
    requires
        stated_time(c) is Some,
        stated_time(c)->0 + MAX_AGE_SECS < now,
    ensures
        !g.accepts(c, nonce, now),
{
}

/// A challenge that was taken is used up.
pub proof fn lemma_accepted_is_used_up(g: PowGuardView, c: Seq<char>, nonce: Seq<char>, now: nat)
    requires
        g.wf(),
        g.accepts(c, nonce, now),
    ensures
        g.after(c, nonce, now).wf(),
        g.after(c, nonce, now).used_up(c),
{
    let t = g.time_at(now);
    let kept = unexpired(g.spent, t);
    let next = g.after(c, nonce, now);
    lemma_unexpired_members(g.spent, t);
    assert(next.spent[kept.len() as int].challenge == c);
    assert forall|k: int| 0 <= k < next.spent.len() implies stated_time(
        (#[trigger] next.spent[k]).challenge,
    ) == Some(next.spent[k].issued_at) by {
        if k < kept.len() {
            assert(kept.contains(kept[k]));
            let m = choose|m: int| 0 <= m < g.spent.len() && g.spent[m] == kept[k];
            assert(stated_time(g.spent[m].challenge) == Some(g.spent[m].issued_at));
        }
    }
}

/// What is used up stays used up, whatever the guard is asked next.
pub proof fn lemma_used_up_stays(
    g: PowGuardView,
    c: Seq<char>,
    other: Seq<char>,
    nonce: Seq<char>,
    now: nat,
)
    requires
        g.wf(),
        g.used_up(c),
    ensures
        g.after(other, nonce, now).wf(),
        g.after(other, nonce, now).used_up(c),
{
    let t = g.time_at(now);
    let kept = unexpired(g.spent, t);
    let next = g.after(other, nonce, now);
    lemma_unexpired_members(g.spent, t);
    assert forall|k: int| 0 <= k < next.spent.len() implies stated_time(
        (#[trigger] next.spent[k]).challenge,
    ) == Some(next.spent[k].issued_at) by {
        if k < kept.len() {
            assert(kept.contains(kept[k]));
            let m = choose|m: int| 0 <= m < g.spent.len() && g.spent[m] == kept[k];
            assert(stated_time(g.spent[m].challenge) == Some(g.spent[m].issued_at));
        }
    }
    if listed(g.spent, c) {
        let k = choose|k: int| 0 <= k < g.spent.len() && (#[trigger] g.spent[k]).challenge == c;
        let e = g.spent[k];
        assert(g.spent.contains(e));
        assert(stated_time(c) == Some(e.issued_at));
        if t <= e.issued_at + MAX_AGE_SECS {
            assert(kept.contains(e));
            let m = choose|m: int| 0 <= m < kept.len() && kept[m] == e;
            assert(next.spent[m].challenge == c);
        }
    }
}

/// A challenge is taken once: what is used up is refused at every later
/// time and with every answer.
pub proof fn lemma_used_up_rejected(g: PowGuardView, c: Seq<char>, nonce: Seq<char>, now: nat)
    requires
        g.used_up(c),
    ensures
        !g.accepts(c, nonce, now),
{
}

/// The difficulty in the digits of the digest: a digest meets it exactly if
/// its hexadecimal text begins with four zeros.
pub proof fn lemma_difficulty_in_hex(digest: Seq<u8>)
    requires
        digest.len() >= 2,
    ensures
        meets_difficulty(digest) <==> crate::text::occurs_at(
            hex_of(digest),
            seq!['0', '0', '0', '0'],
            0,
        ),
{
    let h = hex_of(digest);
    let zeros = seq!['0', '0', '0', '0'];
    assert forall|i: int| 0 <= i < 4 implies (#[trigger] h[i] == '0' <==> digest_digit(digest, i)
        == 0) by {
        let b = digest[i / 2] as int;
        assert(0 <= b / 16 < 16 && 0 <= b % 16 < 16);
    }
    if meets_difficulty(digest) {
        assert(digest_digit(digest, 0) == 0 && digest_digit(digest, 1) == 0 && digest_digit(
            digest,
            2,
        ) == 0 && digest_digit(digest, 3) == 0);
        assert(h.subrange(0, 4) =~= zeros);
    }
    if crate::text::occurs_at(h, zeros, 0) {
        let sub = h.subrange(0, 4);
        assert(sub[0] == h[0] && sub[1] == h[1] && sub[2] == h[2] && sub[3] == h[3]);
    }
}

/// Whether a digest begins with as many zero digits as are asked for.
pub fn digest_meets_difficulty(digest: &[u8]) -> (ok: bool)
    ensures
        ok == meets_difficulty(digest@),
{
    if digest.len() < 2 {
        return false;
    }
    let ok = digest[0] == 0 && digest[1] == 0;
    proof {
        let d = digest@;
        if ok {
            assert forall|i: int| 0 <= i < DIFFICULTY implies #[trigger] digest_digit(d, i)
                == 0 by {}
        } else {
            if d[0] != 0 {
                assert(digest_digit(d, 0) == 0 && digest_digit(d, 1) == 0 ==> d[0] == 0);
            } else {
                assert(digest_digit(d, 2) == 0 && digest_digit(d, 3) == 0 ==> d[1] == 0);
            }
        }
    }
    ok
}

/// Whether `nonce` answers `challenge`: the digest of the two, one after the
/// other, begins with enough zero digits.
pub fn work_done(challenge: &str, nonce: &str) -> (ok: bool)
    ensures
        ok == meets_difficulty(work_digest(challenge@, nonce@)),
{
    let mut input: Vec<u8> = Vec::new();
    push_bytes(&mut input, challenge.as_bytes());
    push_bytes(&mut input, nonce.as_bytes());
    assert(input@ =~= encode_utf8(challenge@) + encode_utf8(nonce@));
    let digest = sha256(input.as_slice());
    digest_meets_difficulty(digest.as_slice())
}

/// Looks for an answer to `challenge` among the numerals of the numbers
/// below `limit`, and gives the least number whose numeral is one.
pub fn solve_pow(challenge: &str, limit: u64) -> (r: Option<u64>)
    ensures
        match r {
            Some(n) => n < limit && meets_difficulty(
                work_digest(challenge@, numeral_of(n as nat)),
            ) && forall|m: nat|
                m < n ==> !meets_difficulty(work_digest(challenge@, #[trigger] numeral_of(m))),
            None => forall|m: nat|
                m < limit ==> !meets_difficulty(
                    work_digest(challenge@, #[trigger] numeral_of(m)),
                ),
        },
{
    let mut n: u64 = 0;
    while n < limit
        invariant
            n <= limit,
            forall|m: nat|
                m < n ==> !meets_difficulty(work_digest(challenge@, #[trigger] numeral_of(m))),
        decreases limit - n,
    {
        let text = to_numeral(n);
        if work_done(challenge, text.as_str()) {
            return Some(n);
        }
        n += 1;
    }
    None
}

/// The three parts of a challenge, as `challenge_fields` gives them.
pub fn split_challenge(challenge: &str) -> (r: Option<(String, String, String)>)
    ensures
        match r {
            Some((time, random, signature)) => challenge_fields(challenge@) == Some(
                (time@, random@, signature@),
            ),
            None => challenge_fields(challenge@) is None,
        },
{
    let v = chars_of(challenge);
    let i = match find_char(&v, DOT) {
        Some(i) => i,
        None => { return None; },
    };
    let n = v.len();
    let rest = slice_of(challenge, i + 1, n);
    let w = chars_of(rest.as_str());
    assert(w@ =~= v@.skip(i + 1));
    let j = match find_char(&w, DOT) {
        Some(j) => j,
        None => { return None; },
    };
    let m = w.len();
    let signature = slice_of(rest.as_str(), j + 1, m);
    let s = chars_of(signature.as_str());
    assert(s@ =~= w@.skip(j + 1));
    if find_char(&s, DOT).is_some() {
        return None;
    }
    let time = slice_of(challenge, 0, i);
    let random = slice_of(rest.as_str(), 0, j);
    assert(time@ =~= v@.take(i as int));
    assert(random@ =~= w@.take(j as int));
    Some((time, random, signature))
}

/// The signature that a guard with this secret gives to time and random part.
pub fn sign(secret: &[u8], time: &str, random: &str) -> (signature: String)
    ensures
        signature@ == signature_of(secret@, time@, random@),
{
    proof {
        reveal_strlit(".");
    }
    let mut payload = time.to_owned();
    payload.append(".");
    payload.append(random);
    assert(payload@ =~= signed_part(time@, random@));
    let mac = hmac_sha256(secret, payload.as_str().as_bytes());
    hex_encode(mac.as_slice())
}

/// The seconds of a clock reading in milliseconds; a reading before the
/// epoch counts as the epoch.
pub fn seconds_of(millis: i64) -> (secs: u64)
    ensures
        secs == (if millis < 0 {
            0
        } else {
            millis as int / 1000
        }),
{
    if millis < 0 {
        0
    } else {
        (millis / 1000) as u64
    }
}

impl PowGuard {
    /// A guard with a secret of its own, drawn at random: its challenges are
    /// good for as long as it lives.
    pub fn new() -> (g: PowGuard)
        ensures
            g@.spent.len() == 0,
            g@.clock == 0,
            g@.secret.len() == 16,
            g@.wf(),
    {
        PowGuard { secret: random_bytes(), spent: Vec::new(), clock: 0 }
    }

    /// A guard with the given secret.
    pub fn with_secret(secret: &str) -> (g: PowGuard)
        ensures
            g@ == (PowGuardView {
                secret: encode_utf8(secret@),
                spent: Seq::<SpentView>::empty(),
                clock: 0,
            }),
            g@.wf(),
    {
        let mut bytes: Vec<u8> = Vec::new();
        push_bytes(&mut bytes, secret.as_bytes());
        let g = PowGuard { secret: bytes, spent: Vec::new(), clock: 0 };
        assert(g@.spent =~= Seq::<SpentView>::empty());
        g
    }

    /// The challenge that this guard issues at `issued_at` with the random
    /// bytes `random`.
    pub fn challenge_at(&self, issued_at: u64, random: &[u8]) -> (c: String)
        ensures
            c@ == challenge_text(self@.secret, issued_at as nat, random@),
    {
        proof {
            reveal_strlit(".");
        }
        let time = to_numeral(issued_at);
        let random_text = hex_encode(random);
        let signature = sign(self.secret.as_slice(), time.as_str(), random_text.as_str());
        let mut c = time;
        c.append(".");
        c.append(random_text.as_str());
        c.append(".");
        c.append(signature.as_str());
        assert(c@ =~= challenge_text(self@.secret, issued_at as nat, random@));
        c
    }

    /// Issues a challenge: the time of the clock, sixteen random bytes, and
    /// the signature over both.
    pub fn generate_challenge(&self) -> (c: String)
        ensures
            exists|issued_at: nat, random: Seq<u8>|
                issued_at <= u64::MAX && random.len() == 16 && c@ == #[trigger] challenge_text(
                    self@.secret,
                    issued_at,
                    random,
                ),
    {
        let now = seconds_of(now_millis());
        let random = random_bytes();
        let c = self.challenge_at(now, random.as_slice());
        assert(c@ == challenge_text(self@.secret, now as nat, random@));
        c
    }

    /// Whether `challenge` is among those that were answered.
    fn is_spent(&self, challenge: &str) -> (r: bool)
        ensures
            r == listed(self@.spent, challenge@),
    {
        let mut k: usize = 0;
        while k < self.spent.len()
            invariant
                k <= self.spent.len(),
                forall|m: int| 0 <= m < k ==> (#[trigger] self@.spent[m]).challenge != challenge@,
            decreases self.spent.len() - k,
        {
            if str_eq(self.spent[k].challenge.as_str(), challenge) {
                assert(self@.spent[k as int].challenge == challenge@);
                return true;
            }
            k += 1;
        }
        false
    }

    /// Moves the clock to `t` and drops what is too old to be handed in again.
    fn advance(&mut self, t: u64)
        requires
            t >= old(self).clock,
        ensures
            final(self)@ == (PowGuardView {
                secret: old(self)@.secret,
                spent: unexpired(old(self)@.spent, t as nat),
                clock: t as nat,
            }),
    {
        let mut kept: Vec<Spent> = Vec::new();
        let mut k: usize = 0;
        assert(self@.spent.take(0) =~= Seq::<SpentView>::empty());
        while k < self.spent.len()
            invariant
                k <= self.spent.len(),
                *self == *old(self),
                spent_views(kept@) == unexpired(self@.spent.take(k as int), t as nat),
            decreases self.spent.len() - k,
        {
            let e = &self.spent[k];
            proof {
                let cur = self@.spent.take(k + 1);
                assert(cur.drop_last() =~= self@.spent.take(k as int));
                assert(cur.last() == e@);
            }
            if t < e.issued_at || t - e.issued_at <= MAX_AGE_SECS {
                kept.push(Spent { challenge: e.challenge.clone(), issued_at: e.issued_at });
                assert(spent_views(kept@) =~= unexpired(self@.spent.take(k as int), t as nat).push(
                    e@,
                ));
            }
            k += 1;
        }
        assert(self@.spent.take(self.spent.len() as int) =~= self@.spent);
        self.spent = kept;
        self.clock = t;
    }

    /// Judges an answer at a given reading of the clock, in seconds. An
    /// answer that is taken uses the challenge up.
    pub fn verify_at(&mut self, challenge: &str, nonce: &str, now: u64) -> (ok: bool)
        ensures
            ok == old(self)@.accepts(challenge@, nonce@, now as nat),
            final(self)@ == old(self)@.after(challenge@, nonce@, now as nat),
    {
        let t = if now > self.clock {
            now
        } else {
            self.clock
        };
        let ghost before = self@;
        let issued = self.judge(challenge, nonce, t);
        self.advance(t);
        match issued {
            Some(issued_at) => {
                self.spent.push(Spent { challenge: challenge.to_owned(), issued_at });
                assert(self@.spent =~= unexpired(before.spent, t as nat).push(
                    SpentView { challenge: challenge@, issued_at: issued_at as nat },
                ));
                true
            },
            None => false,
        }
    }

    /// The time of issue of a challenge that is taken with this answer at
    /// the guard's time `t`; none where it is not taken.
    fn judge(&self, challenge: &str, nonce: &str, t: u64) -> (r: Option<u64>)
        requires
            t >= self.clock,
        ensures
            forall|now: nat|
                self@.time_at(now) == t ==> (r is Some) == #[trigger] self@.accepts(
                    challenge@,
                    nonce@,
                    now,
                ),
            r is Some ==> stated_time(challenge@) == Some(r->0 as nat),
    {
        let (time, random, signature) = match split_challenge(challenge) {
            Some(parts) => parts,
            None => { return None; },
        };
        let expected = sign(self.secret.as_slice(), time.as_str(), random.as_str());
        if !str_eq(signature.as_str(), expected.as_str()) {
            return None;
        }
        let issued_at = match parse_numeral(time.as_str()) {
            Some(n) => n,
            None => { return None; },
        };
        if issued_at > t && issued_at - t > MAX_SKEW_SECS {
            return None;
        }
        if t > issued_at && t - issued_at > MAX_AGE_SECS {
            return None;
        }
        if self.is_spent(challenge) {
            return None;
        }
        if !work_done(challenge, nonce) {
            return None;
        }
        Some(issued_at)
    }

    /// Judges an answer by the clock of the system. Whatever the clock
    /// shows, the verdict is that of `verify_at` for that reading.
    pub fn verify(&mut self, challenge: &str, nonce: &str) -> (ok: bool)
        ensures
            exists|now: nat| #[trigger]
                old(self)@.accepts(challenge@, nonce@, now) == ok && final(self)@ == old(
                    self,
                )@.after(challenge@, nonce@, now),
    {
        let now = seconds_of(now_millis());
        let ok = self.verify_at(challenge, nonce, now);
        assert(old(self)@.accepts(challenge@, nonce@, now as nat) == ok);
        ok
    }
}

} // verus!
