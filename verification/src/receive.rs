//! The receive half of a transfer: interpreting one inbound stream's bytes
//! and choosing a safe, collision-free name under the download directory.
//!
//! Declared file names are never trusted as paths: path separators and other
//! reserved characters are replaced, control characters are dropped, and
//! leading dots are stripped, so the stored name can neither escape the
//! download directory nor hide itself.  When the chosen name is already
//! present, a numeric suffix (`name_1.ext`, `name_2.ext`, ...) is counted up
//! until a free name is found.  The check against the names already present
//! and the later write race benignly: two simultaneous identical transfers
//! may pick the same name (a documented design constraint, not resolved
//! here).

use vstd::prelude::*;
use vstd::string::StringExecFns;
use crate::discovery::Addr;
use crate::protocol::{
    decode_transfer, header_name, transfer_content, transfer_header_bytes, transfer_wf,
};
use crate::text::{
    chars_to_string, dec_str, lemma_dec_str_digits, lemma_dec_str_injective, push_char,
    str_eq, str_to_chars, u64_to_string, vec_subrange_chars,
};

verus! {

/// Path separators and reserved characters, replaced in declared names.
pub open spec fn is_reserved(c: char) -> bool {
    ||| c == '/'
    ||| c == '\\'
    ||| c == ':'
    ||| c == '*'
    ||| c == '?'
    ||| c == '"'
    ||| c == '<'
    ||| c == '>'
    ||| c == '|'
}

/// Control characters (Unicode category Cc), dropped from declared names.
pub open spec fn is_ctrl(c: char) -> bool {
    c <= '\u{1f}' || ('\u{7f}' <= c && c <= '\u{9f}')
}

fn is_reserved_exec(c: char) -> (r: bool)
    ensures
        r == is_reserved(c),
{
    c == '/' || c == '\\' || c == ':' || c == '*' || c == '?' || c == '"' || c == '<' || c == '>'
        || c == '|'
}

fn is_ctrl_exec(c: char) -> (r: bool)
    ensures
        r == is_ctrl(c),
{
    c <= '\u{1f}' || ('\u{7f}' <= c && c <= '\u{9f}')
}

/// One cleaning pass over a declared name: reserved characters become `_`,
/// control characters disappear.
pub open spec fn cleaned(s: Seq<char>) -> Seq<char>
    decreases s.len(),
{
    if s.len() == 0 {
        Seq::empty()
    } else {
        cleaned(s.drop_last()) + (if is_ctrl(s.last()) {
            Seq::<char>::empty()
        } else {
            seq![if is_reserved(s.last()) {
                '_'
            } else {
                s.last()
            }]
        })
    }
}

/// Leading dots are stripped, so a stored name never hides itself and never
/// names the parent directory.
pub open spec fn trim_leading_dots(s: Seq<char>) -> Seq<char>
    decreases s.len(),
{
    if s.len() > 0 && s[0] == '.' {
        trim_leading_dots(s.skip(1))
    } else {
        s
    }
}

/// The sanitized form of a declared file name.
pub open spec fn sanitize_spec(s: Seq<char>) -> Seq<char> {
    trim_leading_dots(cleaned(s))
}

/// Every character a cleaning pass keeps is neither reserved nor a control
/// character.
proof fn lemma_cleaned_chars(s: Seq<char>)
    ensures
        forall|i: int|
            0 <= i < cleaned(s).len() ==> !is_reserved(#[trigger] cleaned(s)[i]) && !is_ctrl(
                cleaned(s)[i],
            ),
    decreases s.len(),
{
    if s.len() > 0 {
        lemma_cleaned_chars(s.drop_last());
        let d = cleaned(s.drop_last());
        assert forall|i: int| 0 <= i < cleaned(s).len() implies !is_reserved(
            #[trigger] cleaned(s)[i],
        ) && !is_ctrl(cleaned(s)[i]) by {
            if i < d.len() {
                assert(cleaned(s)[i] == d[i]);
            } else {
                assert(!is_ctrl(s.last()));
                assert(cleaned(s)[i] == (if is_reserved(s.last()) {
                    '_'
                } else {
                    s.last()
                }));
            }
        }
    }
}

/// Sanitizes a declared file name for storage: path separators and reserved
/// characters are replaced by `_`, control characters are removed, and
/// leading dots are stripped.  The result never holds a path separator and
/// never starts with a dot.
pub fn sanitize_filename(filename: &str) -> (r: String)
    ensures
        r@ == sanitize_spec(filename@),
        forall|i: int|
            0 <= i < r@.len() ==> !is_reserved(#[trigger] r@[i]) && !is_ctrl(r@[i]),
        r@.len() > 0 ==> r@[0] != '.',
{
    let v = str_to_chars(filename);
    let mut out: Vec<char> = Vec::new();
    let mut i: usize = 0;
    assert(out@ =~= cleaned(v@.take(0)));
    while i < v.len()
        invariant
            i <= v@.len(),
            out@ == cleaned(v@.take(i as int)),
        decreases v@.len() - i,
    {
        let c = v[i];
        proof {
            assert(v@.take(i + 1 as int).drop_last() =~= v@.take(i as int));
            assert(v@.take(i + 1 as int).last() == v@[i as int]);
        }
        if !is_ctrl_exec(c) {
            if is_reserved_exec(c) {
                out.push('_');
            } else {
                out.push(c);
            }
        }
        assert(out@ =~= cleaned(v@.take(i + 1 as int)));
        i = i + 1;
    }
    assert(v@.take(v@.len() as int) =~= v@);
    proof {
        lemma_cleaned_chars(v@);
    }
    let mut a: usize = 0;
    assert(out@.skip(0) =~= out@);
    while a < out.len() && out[a] == '.'
        invariant
            a <= out@.len(),
            trim_leading_dots(out@) == trim_leading_dots(out@.skip(a as int)),
        decreases out@.len() - a,
    {
        proof {
            assert(out@.skip(a as int).skip(1) =~= out@.skip(a + 1 as int));
        }
        a = a + 1;
    }
    assert(trim_leading_dots(out@) == out@.skip(a as int));
    let kept = vec_subrange_chars(&out, a, out.len());
    assert(kept@ =~= out@.skip(a as int));
    let r = chars_to_string(&kept);
    assert(forall|i: int| 0 <= i < r@.len() ==> r@[i] == out@[i + a]);
    r
}

/// Index of the last `.` in a name, or `-1`: where the stem ends and the
/// extension begins.
pub open spec fn last_dot_index(s: Seq<char>) -> int
    decreases s.len(),
{
    if s.len() == 0 {
        -1
    } else if s.last() == '.' {
        s.len() - 1
    } else {
        last_dot_index(s.drop_last())
    }
}

/// The name up to (excluding) its last dot, or the whole name.
pub open spec fn stem_of(s: Seq<char>) -> Seq<char> {
    if last_dot_index(s) < 0 {
        s
    } else {
        s.take(last_dot_index(s))
    }
}

/// The name from its last dot on (dot included), or empty.
pub open spec fn ext_of(s: Seq<char>) -> Seq<char> {
    if last_dot_index(s) < 0 {
        Seq::empty()
    } else {
        s.skip(last_dot_index(s))
    }
}

/// The k-th fallback name: stem, underscore, decimal counter, extension.
pub open spec fn candidate_spec(name: Seq<char>, k: nat) -> Seq<char> {
    stem_of(name) + seq!['_'] + dec_str(k) + ext_of(name)
}

/// Some name in the directory listing reads `x`.
pub open spec fn contains_name(taken: Seq<String>, x: Seq<char>) -> bool {
    exists|i: int| 0 <= i < taken.len() && taken[i]@ == x
}

/// What `resolve_collision` promises of its result: a name not yet taken —
/// the declared name itself when free, else the first numbered fallback.
pub open spec fn valid_resolution(r: Seq<char>, name: Seq<char>, taken: Seq<String>) -> bool {
    &&& !contains_name(taken, r)
    &&& (!contains_name(taken, name) ==> r == name)
    &&& (contains_name(taken, name) ==> exists|k: nat|
        1 <= k && r == candidate_spec(name, k) && (forall|j: nat|
            1 <= j < k ==> contains_name(taken, candidate_spec(name, j))))
}

proof fn lemma_last_dot_index_bounds(s: Seq<char>)
    ensures
        -1 <= last_dot_index(s) < s.len(),
    decreases s.len(),
{
    if s.len() > 0 && s.last() != '.' {
        lemma_last_dot_index_bounds(s.drop_last());
    }
}

proof fn lemma_last_dot_at(s: Seq<char>, d: int)
    requires
        0 <= d < s.len(),
        s[d] == '.',
        forall|j: int| d < j < s.len() ==> s[j] != '.',
    ensures
        last_dot_index(s) == d,
    decreases s.len(),
{
    if d == s.len() - 1 {
    } else {
        assert(s.last() != '.');
        lemma_last_dot_at(s.drop_last(), d);
    }
}

proof fn lemma_no_dot(s: Seq<char>)
    requires
        forall|j: int| 0 <= j < s.len() ==> s[j] != '.',
    ensures
        last_dot_index(s) == -1,
    decreases s.len(),
{
    if s.len() > 0 {
        lemma_no_dot(s.drop_last());
    }
}

/// Splits a name into stem and extension at its last dot.
fn split_name(v: &Vec<char>) -> (r: (Vec<char>, Vec<char>))
    ensures
        r.0@ == stem_of(v@),
        r.1@ == ext_of(v@),
{
    let mut i: usize = v.len();
    while i > 0
        invariant
            i <= v@.len(),
            forall|j: int| i <= j < v@.len() ==> v@[j] != '.',
        decreases i,
    {
        if v[i - 1] == '.' {
            proof {
                lemma_last_dot_at(v@, i - 1 as int);
            }
            let stem = vec_subrange_chars(v, 0, i - 1);
            let ext = vec_subrange_chars(v, i - 1, v.len());
            assert(stem@ =~= stem_of(v@));
            assert(ext@ =~= ext_of(v@));
            return (stem, ext);
        }
        i = i - 1;
    }
    proof {
        lemma_no_dot(v@);
    }
    let stem = vec_subrange_chars(v, 0, v.len());
    let ext: Vec<char> = Vec::new();
    assert(stem@ =~= stem_of(v@));
    assert(ext@ =~= ext_of(v@));
    (stem, ext)
}

/// Distinct counters give distinct fallback names.
proof fn lemma_candidate_injective(name: Seq<char>, k1: nat, k2: nat)
    requires
        candidate_spec(name, k1) == candidate_spec(name, k2),
    ensures
        k1 == k2,
{
    let st = stem_of(name);
    let ex = ext_of(name);
    let c1 = candidate_spec(name, k1);
    let c2 = candidate_spec(name, k2);
    crate::text::lemma_dec_str_len(k1);
    crate::text::lemma_dec_str_len(k2);
    assert(c1.len() == st.len() + 1 + dec_str(k1).len() + ex.len());
    assert(c2.len() == st.len() + 1 + dec_str(k2).len() + ex.len());
    assert(dec_str(k1).len() == dec_str(k2).len());
    assert(dec_str(k1) =~= c1.subrange(
        st.len() as int + 1,
        st.len() as int + 1 + dec_str(k1).len() as int,
    ));
    assert(dec_str(k2) =~= c2.subrange(
        st.len() as int + 1,
        st.len() as int + 1 + dec_str(k2).len() as int,
    ));
    lemma_dec_str_injective(k1, k2);
}

/// Does the directory listing hold this exact name?
fn contains_str(taken: &Vec<String>, x: &str) -> (r: bool)
    ensures
        r == contains_name(taken@, x@),
{
    let n = taken.len();
    let mut i: usize = 0;
    while i < n
        invariant
            n == taken@.len(),
            i <= n,
            forall|j: int| 0 <= j < i ==> taken@[j]@ != x@,
        decreases n - i,
    {
        if str_eq(taken[i].as_str(), x) {
            return true;
        }
        i = i + 1;
    }
    false
}

fn build_candidate(stem: &Vec<char>, ext: &Vec<char>, k: u64) -> (r: String)
    ensures
        r@ == stem@ + seq!['_'] + dec_str(k as nat) + ext@,
{
    let mut s = chars_to_string(stem);
    push_char(&mut s, '_');
    let num = u64_to_string(k);
    s.append(num.as_str());
    let e = chars_to_string(ext);
    s.append(e.as_str());
    assert(s@ =~= stem@ + seq!['_'] + dec_str(k as nat) + ext@);
    s
}

/// Not every one of `n + 1` distinct fallback names fits into a listing of
/// `n` names: some counter below `taken.len() + 2` is always free.
proof fn lemma_candidates_pigeonhole(name: Seq<char>, taken: Seq<String>, k: nat)
    requires
        forall|j: nat| 1 <= j <= k ==> contains_name(taken, #[trigger] candidate_spec(name, j)),
    ensures
        k <= taken.len(),
{
    broadcast use vstd::seq_lib::seq_to_set_is_finite;
    broadcast use vstd::set::group_set_axioms;

    if k > taken.len() {
        let cands = Seq::new(k, |i: int| candidate_spec(name, (i + 1) as nat));
        assert(cands.no_duplicates()) by {
            assert forall|a: int, b: int|
                0 <= a < cands.len() && 0 <= b < cands.len() && a != b implies cands[a]
                != cands[b] by {
                if cands[a] == cands[b] {
                    lemma_candidate_injective(name, (a + 1) as nat, (b + 1) as nat);
                }
            }
        }
        cands.unique_seq_to_set();
        let tv = Seq::new(taken.len(), |i: int| taken[i]@);
        tv.lemma_cardinality_of_set();
        assert(cands.to_set().subset_of(tv.to_set())) by {
            assert forall|x: Seq<char>| cands.to_set().contains(x) implies tv.to_set().contains(
                x,
            ) by {
                let a = choose|a: int| 0 <= a < cands.len() && cands[a] == x;
                assert(contains_name(taken, candidate_spec(name, (a + 1) as nat)));
                let w = choose|w: int| 0 <= w < taken.len() && taken[w]@ == x;
                assert(tv[w] == x);
                assert(tv.contains(x));
            }
        }
        vstd::set_lib::lemma_len_subset(cands.to_set(), tv.to_set());
        assert(k <= tv.to_set().len());
        assert(false);
    }
}

/// Picks the name a received file is stored under: the declared name when no
/// file of that name is present, else `stem_k.ext` for the first free
/// counter `k`.
pub fn resolve_collision(name: &String, taken: &Vec<String>) -> (r: String)
    requires
        taken@.len() < u64::MAX,
    ensures
        valid_resolution(r@, name@, taken@),
{
    if !contains_str(taken, name.as_str()) {
        return name.clone();
    }
    let chars = str_to_chars(name.as_str());
    let (stem, ext) = split_name(&chars);
    let mut k: u64 = 1;
    loop
        invariant
            taken@.len() < u64::MAX,
            1 <= k,
            k <= taken@.len() + 1,
            stem@ == stem_of(name@),
            ext@ == ext_of(name@),
            contains_name(taken@, name@),
            forall|j: nat| 1 <= j < k ==> contains_name(taken@, #[trigger] candidate_spec(name@, j)),
        decreases taken@.len() + 1 - k,
    {
        let cand = build_candidate(&stem, &ext, k);
        assert(cand@ == candidate_spec(name@, k as nat));
        if !contains_str(taken, cand.as_str()) {
            return cand;
        }
        proof {
            assert(forall|j: nat|
                1 <= j <= k as nat ==> contains_name(taken@, #[trigger] candidate_spec(name@, j)));
            lemma_candidates_pigeonhole(name@, taken@, k as nat);
        }
        k = k + 1;
    }
}

/// A resolution of a sanitized name stays safe: no path separators, no
/// leading dot.
pub proof fn lemma_resolution_safe(r: Seq<char>, name: Seq<char>, taken: Seq<String>)
    requires
        valid_resolution(r, name, taken),
        forall|i: int| 0 <= i < name.len() ==> !is_reserved(#[trigger] name[i]) && !is_ctrl(name[i]),
        name.len() > 0 ==> name[0] != '.',
    ensures
        forall|i: int| 0 <= i < r.len() ==> !is_reserved(#[trigger] r[i]),
        r.len() > 0 ==> r[0] != '.',
{
    if contains_name(taken, name) {
        let k = choose|k: nat|
            1 <= k && r == candidate_spec(name, k) && (forall|j: nat|
                1 <= j < k ==> contains_name(taken, candidate_spec(name, j)));
        let st = stem_of(name);
        let ex = ext_of(name);
        let d = dec_str(k);
        lemma_dec_str_digits(k);
        crate::text::lemma_dec_str_len(k);
        let ldi = last_dot_index(name);
        lemma_last_dot_index_bounds(name);
        assert forall|i: int| 0 <= i < r.len() implies !is_reserved(#[trigger] r[i]) by {
            if i < st.len() {
                assert(r[i] == st[i]);
                assert(st[i] == name[i]);
            } else if i == st.len() {
                assert(r[i] == '_');
            } else if i < st.len() + 1 + d.len() {
                assert(r[i] == d[i - st.len() - 1]);
                assert('0' <= r[i] && r[i] <= '9');
            } else {
                let j = i - st.len() - 1 - d.len();
                assert(r[i] == ex[j]);
                assert(ex.len() > 0);
                assert(ldi >= 0);
                assert(ex[j] == name[ldi + j]);
            }
        }
        if r.len() > 0 {
            if st.len() > 0 {
                assert(r[0] == name[0]);
            } else {
                assert(r[0] == '_');
            }
        }
    }
}

/// What one inbound transfer produced: the declared name, the byte count
/// actually written, the final (possibly renamed) path, and the sender.
#[derive(Debug)]
pub struct ReceiveResult {
    pub file_name: String,
    pub file_size: u64,
    pub file_path: String,
    pub sender_addr: Addr,
}

/// Outcome of one attempted inbound transfer; exactly one event is emitted
/// per attempt.
#[derive(Debug)]
#[allow(inconsistent_fields)]
pub enum TransferEvent {
    FileReceived { file_name: String, file_size: u64, file_path: String, sender_addr: Addr },
    ReceiveFailed { error: String, sender_addr: Option<Addr> },
}

/// Interprets one complete inbound stream against the names already present
/// in the download directory.  On success the result carries the declared
/// name, the stored path `dir/<resolved name>`, and the content bytes, whose
/// count — not the declared size — is the authoritative `file_size`.
/// A malformed stream yields an error description instead; the caller emits
/// exactly one event either way.
pub fn receive_file(data: &Vec<u8>, existing: &Vec<String>, download_dir: &str, sender: &Addr) -> (r:
    Result<(ReceiveResult, Vec<u8>), String>)
    requires
        existing@.len() < u64::MAX,
    ensures
        r is Ok <==> transfer_wf(data@),
        r matches Ok((res, content)) ==> {
            let hb = transfer_header_bytes(data@);
            &&& res.file_name@ == header_name(hb)
            &&& content@ == transfer_content(data@)
            &&& res.file_size == transfer_content(data@).len()
            &&& res.sender_addr.ip@ == sender.ip@
            &&& res.sender_addr.port == sender.port
            &&& exists|stored: Seq<char>|
                {
                    &&& #[trigger] valid_resolution(
                        stored,
                        sanitize_spec(header_name(hb)),
                        existing@,
                    )
                    &&& res.file_path@ == download_dir@ + "/"@ + stored
                    &&& forall|i: int| 0 <= i < stored.len() ==> !is_reserved(#[trigger] stored[i])
                    &&& stored.len() > 0 ==> stored[0] != '.'
                }
        },
{
    match decode_transfer(data) {
        None => Err(String::from_str("malformed transfer header")),
        Some((header, content)) => {
            let safe_name = sanitize_filename(header.file_name.as_str());
            let stored = resolve_collision(&safe_name, existing);
            proof {
                lemma_resolution_safe(stored@, safe_name@, existing@);
            }
            let mut path = download_dir.to_owned();
            path.append("/");
            path.append(stored.as_str());
            let size = content.len() as u64;
            let res = ReceiveResult {
                file_name: header.file_name,
                file_size: size,
                file_path: path,
                sender_addr: Addr { ip: sender.ip.clone(), port: sender.port },
            };
            Ok((res, content))
        },
    }
}

/// Two sequential stores never collide: once the first stored name stands in
/// the directory listing, the second resolution avoids it, so the second
/// file never overwrites the first.
pub proof fn lemma_sequential_stores_distinct(
    r1: Seq<char>,
    r2: Seq<char>,
    name2: Seq<char>,
    taken2: Seq<String>,
)
    requires
        contains_name(taken2, r1),
        valid_resolution(r2, name2, taken2),
    ensures
        r1 != r2,
{
}

} // verus!
