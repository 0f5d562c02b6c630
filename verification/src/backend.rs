//! What the front end reads back from the tools it runs: the "key : value"
//! report of the prover, the error line of a failed chain call, and the
//! values of read-only chain calls.

use vstd::prelude::*;
use vstd::utf8::{decode_utf8, encode_utf8, is_char_boundary};

use crate::text::{
    chars_of, contains, find_char, find_in, is_white_space, line_bounds, lines, occurs_at,
    push_chars, push_str, string_from_chars, trim, trim_bounds, trim_char, trim_char_bounds,
    trim_start, trimmed,
};

verus! {

/// Seller's document inputs (what the user types on the Seller tab).
#[derive(Clone, Copy, Debug)]
pub struct DocInput {
    pub amount_usdc: u64,
    pub ship_date_unix: u64,
    pub buyer_balance_usdc: u64,
}

/// Parsed result of a successful proof.
#[derive(Debug)]
pub struct Proof {
    pub lc_id: String,
    pub terms_digest: String,
    pub disclosure_cmt: String,
    pub journal: String,
    pub seal: String,
}

/// Decoded auditor disclosure.
#[derive(Debug)]
pub struct Disclosure {
    pub amount: String,
    pub balance: String,
    pub ship_date: String,
    pub buyer_id: String,
    pub seller_id: String,
    pub commitment: String,
}

// --- "key : value" reports --------------------------------------------------

/// The index of the first `c` in `s`.
pub open spec fn first_index_of(s: Seq<char>, c: char) -> Option<nat>
    decreases s.len(),
{
    if s.len() == 0 {
        None
    } else if s[0] == c {
        Some(0)
    } else {
        match first_index_of(s.drop_first(), c) {
            Some(i) => Some(i + 1),
            None => None,
        }
    }
}

proof fn lemma_first_index_of(s: Seq<char>, c: char, i: int)
    requires
        0 <= i <= s.len(),
        forall|k: int| 0 <= k < i ==> s[k] != c,
    ensures
        i < s.len() && s[i] == c ==> first_index_of(s, c) == Some(i as nat),
        i == s.len() ==> first_index_of(s, c) is None,
    decreases s.len(),
{
    if s.len() > 0 && i > 0 {
        lemma_first_index_of(s.drop_first(), c, i - 1);
    }
}

/// The key and value of a report line: the trimmed text before and after
/// its first ':', both non-empty.
pub open spec fn kv_line(line: Seq<char>) -> Option<(Seq<char>, Seq<char>)> {
    match first_index_of(line, ':') {
        None => None,
        Some(i) => {
            let k = trim(line.subrange(0, i as int));
            let v = trim(line.subrange(i as int + 1, line.len() as int));
            if k.len() > 0 && v.len() > 0 {
                Some((k, v))
            } else {
                None
            }
        },
    }
}

/// The keys and values of report lines, a later line winning over an
/// earlier one with the same key.
pub open spec fn kv_map(lines: Seq<Seq<char>>) -> Map<Seq<char>, Seq<char>>
    decreases lines.len(),
{
    if lines.len() == 0 {
        Map::empty()
    } else {
        let m = kv_map(lines.drop_last());
        match kv_line(lines.last()) {
            Some((k, v)) => m.insert(k, v),
            None => m,
        }
    }
}

/// The map that a list of key/value pairs builds, later pairs winning.
pub open spec fn pairs_map(pairs: Seq<(Seq<char>, Seq<char>)>) -> Map<Seq<char>, Seq<char>>
    decreases pairs.len(),
{
    if pairs.len() == 0 {
        Map::empty()
    } else {
        pairs_map(pairs.drop_last()).insert(pairs.last().0, pairs.last().1)
    }
}

/// The parsed "key : value" lines of a report.
pub struct KvMap {
    pairs: Vec<(Vec<char>, Vec<char>)>,
}

impl KvMap {
    /// The pairs as character sequences.
    pub closed spec fn pairs_view(&self) -> Seq<(Seq<char>, Seq<char>)> {
        self.pairs@.map_values(|p: (Vec<char>, Vec<char>)| (p.0@, p.1@))
    }
}

impl View for KvMap {
    type V = Map<Seq<char>, Seq<char>>;

    closed spec fn view(&self) -> Map<Seq<char>, Seq<char>> {
        pairs_map(self.pairs_view())
    }
}

/// Parse the host's "key : value" lines (keys may contain spaces).
pub fn parse_kv(text: &str) -> (m: KvMap)
    ensures
        m@ == kv_map(lines(text@)),
{
    let cs = chars_of(text);
    let ls = line_bounds(cs.as_slice());
    let ghost all = lines(cs@);
    let mut pairs: Vec<(Vec<char>, Vec<char>)> = Vec::new();
    let mut k: usize = 0;
    while k < ls.len()
        invariant
            k <= ls@.len() == all.len(),
            all == lines(cs@),
            forall|q: int|
                0 <= q < ls@.len() ==> (#[trigger] ls@[q]).0 <= ls@[q].1 <= cs@.len()
                    && cs@.subrange(ls@[q].0 as int, ls@[q].1 as int) == all[q],
            pairs_map(pairs@.map_values(|p: (Vec<char>, Vec<char>)| (p.0@, p.1@))) == kv_map(
                all.subrange(0, k as int),
            ),
        decreases ls@.len() - k,
    {
        let (a, b) = ls[k];
        let ghost line = cs@.subrange(a as int, b as int);
        let ghost old_pairs = pairs@.map_values(|p: (Vec<char>, Vec<char>)| (p.0@, p.1@));
        proof {
            assert(all.subrange(0, k + 1).drop_last() =~= all.subrange(0, k as int));
            assert(all.subrange(0, k + 1).last() == line);
        }
        match find_char(cs.as_slice(), a, b, ':') {
            None => {
                proof {
                    assert forall|q: int| 0 <= q < line.len() implies line[q] != ':' by {
                        assert(line[q] == cs@[a + q]);
                    }
                    lemma_first_index_of(line, ':', line.len() as int);
                }
            },
            Some(i) => {
                let (k0, k1) = trim_bounds(cs.as_slice(), a, i);
                let (v0, v1) = trim_bounds(cs.as_slice(), i + 1, b);
                proof {
                    assert forall|q: int| 0 <= q < i - a implies line[q] != ':' by {
                        assert(line[q] == cs@[a + q]);
                    }
                    lemma_first_index_of(line, ':', i - a);
                    assert(line.subrange(0, i - a) =~= cs@.subrange(a as int, i as int));
                    assert(line.subrange(i - a + 1, line.len() as int) =~= cs@.subrange(
                        i + 1,
                        b as int,
                    ));
                }
                if k1 > k0 && v1 > v0 {
                    let key = vstd::slice::slice_to_vec(
                        vstd::slice::slice_subrange(cs.as_slice(), k0, k1),
                    );
                    let val = vstd::slice::slice_to_vec(
                        vstd::slice::slice_subrange(cs.as_slice(), v0, v1),
                    );
                    pairs.push((key, val));
                    proof {
                        let np = pairs@.map_values(|p: (Vec<char>, Vec<char>)| (p.0@, p.1@));
                        assert(np.drop_last() =~= old_pairs);
                    }
                }
            },
        }
        k += 1;
    }
    assert(all.subrange(0, ls@.len() as int) =~= all);
    KvMap { pairs }
}

impl KvMap {
    /// The value of `key`, if a line gave it one.
    pub fn get(&self, key: &str) -> (r: Option<String>)
        ensures
            match r {
                Some(v) => self@.contains_key(key@) && v@ == self@[key@],
                None => !self@.contains_key(key@),
            },
    {
        let kc = chars_of(key);
        let ghost pv = self.pairs_view();
        let mut i = self.pairs.len();
        assert(pv.subrange(0, i as int) =~= pv);
        while i > 0
            invariant
                i <= self.pairs@.len(),
                pv == self.pairs_view(),
                pv.len() == self.pairs@.len(),
                kc@ == key@,
                pairs_map(pv).contains_key(key@) == pairs_map(pv.subrange(0, i as int)).contains_key(
                    key@,
                ),
                pairs_map(pv).contains_key(key@) ==> pairs_map(pv)[key@] == pairs_map(
                    pv.subrange(0, i as int),
                )[key@],
            decreases i,
        {
            let ghost sub = pv.subrange(0, i as int);
            assert(sub.drop_last() =~= pv.subrange(0, i - 1));
            let e = &self.pairs[i - 1];
            if chars_eq(&e.0, &kc) {
                let v = string_from_chars(e.1.as_slice());
                return Some(v);
            }
            i -= 1;
        }
        assert(pv.subrange(0, 0) =~= Seq::<(Seq<char>, Seq<char>)>::empty());
        None
    }

    /// The value of `key`, or the empty string.
    pub fn get_or_empty(&self, key: &str) -> (v: String)
        ensures
            v@ == (if self@.contains_key(key@) {
                self@[key@]
            } else {
                Seq::empty()
            }),
    {
        match self.get(key) {
            Some(v) => v,
            None => String::new(),
        }
    }
}

/// Whether two character vectors are equal.
pub fn chars_eq(a: &Vec<char>, b: &Vec<char>) -> (eq: bool)
    ensures
        eq == (a@ == b@),
{
    if a.len() != b.len() {
        return false;
    }
    let mut i: usize = 0;
    while i < a.len()
        invariant
            i <= a@.len() == b@.len(),
            forall|k: int| 0 <= k < i ==> a@[k] == b@[k],
        decreases a@.len() - i,
    {
        if a[i] != b[i] {
            return false;
        }
        i += 1;
    }
    assert(a@ =~= b@);
    true
}

// --- error lines and tails ---------------------------------------------------

/// The last `n` bytes of the trimmed text, after a '…', when it is longer
/// than `n` bytes; the whole trimmed text otherwise.
pub open spec fn tail_spec(s: Seq<char>, n: nat) -> Seq<char> {
    let t = trim(s);
    let b = encode_utf8(t);
    if b.len() <= n {
        t
    } else {
        seq!['\u{2026}'] + decode_utf8(b.subrange(b.len() - n, b.len() as int))
    }
}

/// Whether the cut `tail` makes falls on a character boundary (it panics
/// otherwise).
pub open spec fn tail_cuts_cleanly(s: Seq<char>, n: nat) -> bool {
    let b = encode_utf8(trim(s));
    b.len() > n ==> is_char_boundary(b, b.len() - n)
}

/// Whether `tail(s, n)` can be taken.
pub fn tail_cuts_cleanly_exec(s: &str, n: usize) -> (ok: bool)
    ensures
        ok == tail_cuts_cleanly(s@, n as nat),
{
    let t = trimmed(s);
    let ts = t.as_str();
    let len = ts.as_bytes().len();
    if len <= n {
        true
    } else {
        ts.is_char_boundary(len - n)
    }
}

/// The last `n` bytes of the trimmed text, marked with a leading '…' when cut.
pub fn tail(s: &str, n: usize) -> (r: String)
    requires
        tail_cuts_cleanly(s@, n as nat),
    ensures
        r@ == tail_spec(s@, n as nat),
{
    let t = trimmed(s);
    let ts = t.as_str();
    let len = ts.as_bytes().len();
    if len <= n {
        return t;
    }
    let (_, rest) = ts.split_at(len - n);
    proof {
        vstd::utf8::encode_utf8_decode_utf8(rest@);
        reveal_strlit("\u{2026}");
    }
    let mut out = String::from_str("\u{2026}");
    out.append(rest);
    out
}

/// The report of a failed tool run: what failed, a colon, a newline, and the
/// last 800 bytes of its output.
pub open spec fn failure_report(what: Seq<char>, output: Seq<char>) -> Seq<char> {
    what + ":\n"@ + tail_spec(output, 800)
}

/// `what`, a colon and a newline, then the tail of `output`.
fn report_failure(what: &str, output: &str) -> (r: String)
    requires
        tail_cuts_cleanly(output@, 800),
    ensures
        r@ == failure_report(what@, output@),
{
    let mut cs: Vec<char> = Vec::new();
    push_str(&mut cs, what);
    push_str(&mut cs, ":\n");
    let t = tail(output, 800);
    push_str(&mut cs, t.as_str());
    proof {
        reveal_strlit(":\n");
    }
    string_from_chars(cs.as_slice())
}

/// The error of a proving run that failed without a guest panic.
pub fn proving_failed(stderr: &str) -> (r: String)
    requires
        tail_cuts_cleanly(stderr@, 800),
    ensures
        r@ == failure_report("proving failed"@, stderr@),
{
    report_failure("proving failed", stderr)
}

/// The error of a proving run whose report carries no seal.
pub fn no_seal(stdout: &str) -> (r: String)
    requires
        tail_cuts_cleanly(stdout@, 800),
    ensures
        r@ == failure_report("proof produced no seal"@, stdout@),
{
    report_failure("proof produced no seal", stdout)
}

/// The error of a failed audit run.
pub fn audit_failed(stderr: &str) -> (r: String)
    requires
        tail_cuts_cleanly(stderr@, 800),
    ensures
        r@ == failure_report("audit failed"@, stderr@),
{
    report_failure("audit failed", stderr)
}

/// The lowercase form of a string, as `str::to_lowercase` computes it.
pub uninterp spec fn lowercase(s: Seq<char>) -> Seq<char>;

/// `str::to_lowercase`.
///
/// Trusted: the result is the value of `lowercase` on the characters of
/// `s`; nothing about Unicode case mapping is claimed.
#[verifier::external_body]
fn to_lowercase(s: &str) -> (r: String)
    ensures
        r@ == lowercase(s@),
{
    s.to_lowercase()
}

/// Whether a line reports an error: "error" occurs in it, in any case.
pub open spec fn is_error_line(line: Seq<char>) -> bool {
    contains(lowercase(line), "error"@)
}

/// Whether a line reports a guest panic.
pub open spec fn is_panic_line(line: Seq<char>) -> bool {
    contains(line, "Guest panicked:"@)
}

/// The index of the first line that `p` accepts.
pub open spec fn first_line_where(ls: Seq<Seq<char>>, p: spec_fn(Seq<char>) -> bool) -> Option<nat>
    decreases ls.len(),
{
    if ls.len() == 0 {
        None
    } else if p(ls[0]) {
        Some(0)
    } else {
        match first_line_where(ls.drop_first(), p) {
            Some(i) => Some(i + 1),
            None => None,
        }
    }
}

proof fn lemma_first_line_where(ls: Seq<Seq<char>>, p: spec_fn(Seq<char>) -> bool, i: int)
    requires
        0 <= i <= ls.len(),
        forall|k: int| 0 <= k < i ==> !p(#[trigger] ls[k]),
    ensures
        i < ls.len() && p(ls[i]) ==> first_line_where(ls, p) == Some(i as nat),
        i == ls.len() ==> first_line_where(ls, p) is None,
    decreases ls.len(),
{
    if ls.len() > 0 && i > 0 {
        assert forall|k: int| 0 <= k < i - 1 implies !p(#[trigger] ls.drop_first()[k]) by {
            assert(ls.drop_first()[k] == ls[k + 1]);
        }
        lemma_first_line_where(ls.drop_first(), p, i - 1);
    }
}

/// The first error line of a tool's stderr, trimmed; without one, the tail
/// of the whole stderr.
pub open spec fn first_error_line_spec(stderr: Seq<char>) -> Seq<char> {
    match first_line_where(lines(stderr), |l: Seq<char>| is_error_line(l)) {
        Some(i) => trim(lines(stderr)[i as int]),
        None => tail_spec(stderr, 400),
    }
}

/// The first line of `text` that reports an error, or (when `panic_lines`)
/// a guest panic.
fn first_line_matching(text: &str, panic_lines: bool) -> (r: Option<String>)
    ensures
        ({
            let p = if panic_lines {
                |l: Seq<char>| is_panic_line(l)
            } else {
                |l: Seq<char>| is_error_line(l)
            };
            match first_line_where(lines(text@), p) {
                Some(i) => r matches Some(s) && s@ == trim(lines(text@)[i as int]),
                None => r is None,
            }
        }),
{
    let ghost p = if panic_lines {
        |l: Seq<char>| is_panic_line(l)
    } else {
        |l: Seq<char>| is_error_line(l)
    };
    let cs = chars_of(text);
    let ls = line_bounds(cs.as_slice());
    let ghost all = lines(cs@);
    let needle = if panic_lines {
        chars_of("Guest panicked:")
    } else {
        chars_of("error")
    };
    let mut k: usize = 0;
    while k < ls.len()
        invariant
            k <= ls@.len() == all.len(),
            all == lines(text@),
            needle@ == (if panic_lines {
                "Guest panicked:"@
            } else {
                "error"@
            }),
            p == (if panic_lines {
                |l: Seq<char>| is_panic_line(l)
            } else {
                |l: Seq<char>| is_error_line(l)
            }),
            forall|q: int|
                0 <= q < ls@.len() ==> (#[trigger] ls@[q]).0 <= ls@[q].1 <= cs@.len()
                    && cs@.subrange(ls@[q].0 as int, ls@[q].1 as int) == all[q],
            forall|q: int| 0 <= q < k ==> !p(#[trigger] all[q]),
        decreases ls@.len() - k,
    {
        let (a, b) = ls[k];
        let ghost line = cs@.subrange(a as int, b as int);
        let hit = if panic_lines {
            let found = find_in(cs.as_slice(), a, b, needle.as_slice());
            found.is_some()
        } else {
            let line_str = string_from_chars(vstd::slice::slice_subrange(cs.as_slice(), a, b));
            let lower = to_lowercase(line_str.as_str());
            let lc = chars_of(lower.as_str());
            let found = find_in(lc.as_slice(), 0, lc.len(), needle.as_slice());
            assert(lc@.subrange(0, lc@.len() as int) =~= lc@);
            found.is_some()
        };
        if hit {
            proof {
                lemma_first_line_where(all, p, k as int);
            }
            let (t0, t1) = trim_bounds(cs.as_slice(), a, b);
            return Some(string_from_chars(vstd::slice::slice_subrange(cs.as_slice(), t0, t1)));
        }
        k += 1;
    }
    proof {
        lemma_first_line_where(all, p, all.len() as int);
    }
    None
}

/// The line of a tool's stderr worth showing: the first line that mentions
/// an error (in any case), trimmed, or else the last 400 bytes.
pub fn first_error_line(stderr: &str) -> (r: String)
    requires
        first_line_where(lines(stderr@), |l: Seq<char>| is_error_line(l)) is None
            ==> tail_cuts_cleanly(stderr@, 400),
    ensures
        r@ == first_error_line_spec(stderr@),
{
    match first_line_matching(stderr, false) {
        Some(l) => l,
        None => tail(stderr, 400),
    }
}

/// Whether `first_error_line` can show something for `stderr` (its fallback
/// tail must cut on a character boundary).
pub fn first_error_line_computable(stderr: &str) -> (b: bool)
    ensures
        b == (first_line_where(lines(stderr@), |l: Seq<char>| is_error_line(l)) is None
            ==> tail_cuts_cleanly(stderr@, 400)),
{
    match first_line_matching(stderr, false) {
        Some(_) => true,
        None => tail_cuts_cleanly_exec(stderr, 400),
    }
}

/// The first line of a prover's stderr that reports a guest panic, trimmed.
pub fn guest_panic_line(stderr: &str) -> (r: Option<String>)
    ensures
        match first_line_where(lines(stderr@), |l: Seq<char>| is_panic_line(l)) {
            Some(i) => r matches Some(s) && s@ == trim(lines(stderr@)[i as int]),
            None => r is None,
        },
{
    first_line_matching(stderr, true)
}

// --- reading tool output ----------------------------------------------------

/// The value a report gives `key`, or the empty string.
pub open spec fn report_value(report: Seq<char>, key: Seq<char>) -> Seq<char> {
    let m = kv_map(lines(report));
    if m.contains_key(key) {
        m[key]
    } else {
        Seq::empty()
    }
}

/// The proof a prover's report describes; none when it carries no seal.
pub open spec fn proof_fields(report: Seq<char>) -> Option<
    (Seq<char>, Seq<char>, Seq<char>, Seq<char>, Seq<char>),
> {
    let seal = report_value(report, "seal"@);
    if seal.len() == 0 {
        None
    } else {
        Some(
            (
                report_value(report, "lc_id"@),
                report_value(report, "terms_digest"@),
                report_value(report, "disclosure_cmt"@),
                report_value(report, "journal"@),
                seal,
            ),
        )
    }
}

/// Read a proof from the prover's report.
pub fn proof_from_report(report: &str) -> (r: Option<Proof>)
    ensures
        match proof_fields(report@) {
            Some(f) => r matches Some(p) && p.lc_id@ == f.0 && p.terms_digest@ == f.1
                && p.disclosure_cmt@ == f.2 && p.journal@ == f.3 && p.seal@ == f.4,
            None => r is None,
        },
{
    let m = parse_kv(report);
    let seal = m.get_or_empty("seal");
    if seal.as_str().unicode_len() == 0 {
        return None;
    }
    Some(
        Proof {
            lc_id: m.get_or_empty("lc_id"),
            terms_digest: m.get_or_empty("terms_digest"),
            disclosure_cmt: m.get_or_empty("disclosure_cmt"),
            journal: m.get_or_empty("journal"),
            seal,
        },
    )
}

/// The first whitespace-separated word of `s` (empty when there is none).
pub open spec fn first_word(s: Seq<char>) -> Seq<char> {
    let t = trim_start(s);
    match first_white_space(t) {
        Some(i) => t.subrange(0, i as int),
        None => t,
    }
}

/// The index of the first whitespace character of `s`.
pub open spec fn first_white_space(s: Seq<char>) -> Option<nat>
    decreases s.len(),
{
    if s.len() == 0 {
        None
    } else if is_white_space(s[0]) {
        Some(0)
    } else {
        match first_white_space(s.drop_first()) {
            Some(i) => Some(i + 1),
            None => None,
        }
    }
}

proof fn lemma_first_white_space(s: Seq<char>, i: int)
    requires
        0 <= i <= s.len(),
        forall|k: int| 0 <= k < i ==> !is_white_space(#[trigger] s[k]),
    ensures
        i < s.len() && is_white_space(s[i]) ==> first_white_space(s) == Some(i as nat),
        i == s.len() ==> first_white_space(s) is None,
    decreases s.len(),
{
    if s.len() > 0 && i > 0 {
        assert forall|k: int| 0 <= k < i - 1 implies !is_white_space(#[trigger] s.drop_first()[k]) by {
            assert(s.drop_first()[k] == s[k + 1]);
        }
        lemma_first_white_space(s.drop_first(), i - 1);
    }
}

/// `s.split_whitespace().next().unwrap_or("")`.
pub fn first_word_of(s: &str) -> (w: String)
    ensures
        w@ == first_word(s@),
{
    let cs = chars_of(s);
    let n = cs.len();
    let mut lo: usize = 0;
    assert(cs@.subrange(0, n as int) =~= cs@);
    while lo < n && crate::text::char_is_white_space(cs[lo])
        invariant
            lo <= n == cs@.len(),
            trim_start(s@) == trim_start(cs@.subrange(lo as int, n as int)),
        decreases n - lo,
    {
        assert(cs@.subrange(lo + 1, n as int) =~= cs@.subrange(lo as int, n as int).drop_first());
        lo += 1;
    }
    assert(cs@.subrange(0, n as int) =~= cs@);
    let ghost t = cs@.subrange(lo as int, n as int);
    assert(trim_start(s@) == t);
    let mut hi = lo;
    while hi < n && !crate::text::char_is_white_space(cs[hi])
        invariant
            lo <= hi <= n == cs@.len(),
            t == cs@.subrange(lo as int, n as int),
            forall|k: int| 0 <= k < hi - lo ==> !is_white_space(#[trigger] t[k]),
        decreases n - hi,
    {
        hi += 1;
    }
    proof {
        lemma_first_white_space(t, hi - lo);
        if hi == n {
            assert(t =~= cs@.subrange(lo as int, hi as int));
        } else {
            assert(t.subrange(0, hi - lo) =~= cs@.subrange(lo as int, hi as int));
        }
    }
    string_from_chars(vstd::slice::slice_subrange(cs.as_slice(), lo, hi))
}

/// Read the auditor's disclosure from the prover's audit report. The
/// commitment is reported with a trailing remark; only its first word is kept.
pub fn disclosure_from_report(report: &str) -> (d: Disclosure)
    ensures
        d.amount@ == report_value(report@, "invoice amount"@),
        d.balance@ == report_value(report@, "buyer escrow balance"@),
        d.ship_date@ == report_value(report@, "shipment date (unix)"@),
        d.buyer_id@ == report_value(report@, "invoice buyer_id"@),
        d.seller_id@ == report_value(report@, "invoice seller_id"@),
        d.commitment@ == first_word(report_value(report@, "disclosure_commitment"@)),
{
    let m = parse_kv(report);
    let c = m.get_or_empty("disclosure_commitment");
    Disclosure {
        amount: m.get_or_empty("invoice amount"),
        balance: m.get_or_empty("buyer escrow balance"),
        ship_date: m.get_or_empty("shipment date (unix)"),
        buyer_id: m.get_or_empty("invoice buyer_id"),
        seller_id: m.get_or_empty("invoice seller_id"),
        commitment: first_word_of(c.as_str()),
    }
}

/// A value printed by a read-only chain call, without surrounding whitespace
/// and quotes.
pub open spec fn printed_value(v: Seq<char>) -> Seq<char> {
    trim_char(trim(v), '"')
}

/// A printed value without surrounding whitespace and quotes.
pub fn unquote(v: &str) -> (r: String)
    ensures
        r@ == printed_value(v@),
{
    let cs = chars_of(v);
    let (lo, hi) = trim_bounds(cs.as_slice(), 0, cs.len());
    assert(cs@.subrange(0, cs@.len() as int) =~= cs@);
    let (a, b) = trim_char_bounds(cs.as_slice(), lo, hi, '"');
    string_from_chars(vstd::slice::slice_subrange(cs.as_slice(), a, b))
}

/// Whether a printed `is_released` result says the escrow was released.
pub fn released_from_output(v: &str) -> (b: bool)
    ensures
        b == (printed_value(v@) == "true"@),
{
    let u = unquote(v);
    let t = String::from_str("true");
    u == t
}

/// What a chain call returned: its stdout, or when that is blank its
/// trimmed stderr (where the transaction log goes).
pub open spec fn call_output(stdout: Seq<char>, stderr: Seq<char>) -> Seq<char> {
    if trim(stdout).len() == 0 {
        trim(stderr)
    } else {
        stdout
    }
}

/// What a chain call returned.
pub fn call_output_of(stdout: String, stderr: &str) -> (r: String)
    ensures
        r@ == call_output(stdout@, stderr@),
{
    let t = trimmed(stdout.as_str());
    if t.as_str().unicode_len() == 0 {
        trimmed(stderr)
    } else {
        stdout
    }
}

} // verus!
