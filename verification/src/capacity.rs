//! Capacity requests: the request id that names the task a capacity query
//! is for, reading the task back out of such an id, and turning the
//! `peer:public-key` answers of responders into candidates.
use vstd::prelude::*;
use vstd::string::StrSliceExecFns;

use crate::assoc::{keys_distinct, lemma_push, lemma_to_map_dom, lemma_to_map_value, lemma_update, to_map};
use crate::text::str_eq;

verus! {

/// Index of the first `c` in `s`, or `s.len()` when there is none.
pub open spec fn index_of_char(s: Seq<char>, c: char) -> int
    decreases s.len(),
{
    if s.len() == 0 {
        0
    } else if s[0] == c {
        0
    } else {
        1 + index_of_char(s.drop_first(), c)
    }
}

pub proof fn lemma_index_of_char(s: Seq<char>, c: char)
    ensures
        0 <= index_of_char(s, c) <= s.len(),
        index_of_char(s, c) < s.len() ==> s[index_of_char(s, c)] == c,
        forall|j: int| 0 <= j < index_of_char(s, c) ==> #[trigger] s[j] != c,
    decreases s.len(),
{
    if s.len() > 0 && s[0] != c {
        lemma_index_of_char(s.drop_first(), c);
        assert forall|j: int| 0 <= j < index_of_char(s, c) implies #[trigger] s[j] != c by {
            if j > 0 {
                assert(s[j] == s.drop_first()[j - 1]);
            }
        }
    }
}

pub proof fn lemma_index_of_char_at(s: Seq<char>, c: char, i: int)
    requires
        0 <= i <= s.len(),
        i < s.len() ==> s[i] == c,
        forall|j: int| 0 <= j < i ==> #[trigger] s[j] != c,
    ensures
        index_of_char(s, c) == i,
    decreases s.len(),
{
    if s.len() > 0 && s[0] != c {
        assert forall|j: int| 0 <= j < i - 1 implies #[trigger] s.drop_first()[j] != c by {
            assert(s.drop_first()[j] == s[j + 1]);
        }
        lemma_index_of_char_at(s.drop_first(), c, i - 1);
    }
}

/// The first field of `s` split at `c` (all of `s` when there is no `c`).
pub open spec fn first_field(s: Seq<char>, c: char) -> Seq<char> {
    s.subrange(0, index_of_char(s, c))
}

/// The text after the first `c` in `s`, if there is one.
pub open spec fn after_first(s: Seq<char>, c: char) -> Option<Seq<char>> {
    let i = index_of_char(s, c);
    if i < s.len() {
        Some(s.subrange(i + 1, s.len() as int))
    } else {
        None
    }
}

/// The second field of `s` split at `c`, if there is one.
pub open spec fn second_field(s: Seq<char>, c: char) -> Option<Seq<char>> {
    match after_first(s, c) {
        Some(rest) => Some(first_field(rest, c)),
        None => None,
    }
}

/// The manifest id carried by a capacity request id: the second of its
/// `:`-separated fields when the first is the prefix and the second is not
/// empty; otherwise, for an id that starts with the prefix, the second of
/// its `-`-separated fields when that is not empty.
pub open spec fn manifest_id_of_request(request_id: Seq<char>, prefix: Seq<char>) -> Option<Seq<char>> {
    let colon = second_field(request_id, ':');
    if first_field(request_id, ':') == prefix && colon is Some && colon->0.len() > 0 {
        colon
    } else if request_id.len() >= prefix.len() && request_id.subrange(0, prefix.len() as int) == prefix
        && second_field(request_id, '-') is Some && second_field(request_id, '-')->0.len() > 0 {
        second_field(request_id, '-')
    } else {
        None
    }
}

/// The first index at or after `from` that holds `c`, or the length.
pub(crate) fn find_char(s: &str, c: char, from: usize) -> (i: usize)
    requires
        from <= s@.len(),
    ensures
        i == from + index_of_char(s@.subrange(from as int, s@.len() as int), c),
{
    let n = s.unicode_len();
    let mut i = from;
    while i < n && s.get_char(i) != c
        invariant
            n == s@.len(),
            from <= i <= n,
            forall|j: int| from <= j < i ==> s@[j] != c,
        decreases n - i,
    {
        i = i + 1;
    }
    proof {
        let t = s@.subrange(from as int, s@.len() as int);
        assert forall|j: int| 0 <= j < i - from implies #[trigger] t[j] != c by {
            assert(t[j] == s@[from + j]);
        }
        lemma_index_of_char_at(t, c, i - from);
    }
    i
}

/// The field of `s` that starts at `from` and ends before the next `c`
/// (or at the end), with the index where it ends.
fn field_from(s: &str, c: char, from: usize) -> (r: (String, usize))
    requires
        from <= s@.len(),
    ensures
        r.1 == from + index_of_char(s@.subrange(from as int, s@.len() as int), c),
        r.0@ == first_field(s@.subrange(from as int, s@.len() as int), c),
{
    let end = find_char(s, c, from);
    proof {
        lemma_index_of_char(s@.subrange(from as int, s@.len() as int), c);
    }
    let f = s.substring_char(from, end);
    proof {
        assert(f@ =~= first_field(s@.subrange(from as int, s@.len() as int), c));
    }
    (f.to_owned(), end)
}

/// The second field of `s` split at `c`, if there is one.
fn second_field_of(s: &str, c: char) -> (r: Option<String>)
    ensures
        match r {
            Some(f) => second_field(s@, c) == Some(f@),
            None => second_field(s@, c) is None,
        },
{
    let n = s.unicode_len();
    let i = find_char(s, c, 0);
    proof {
        assert(s@.subrange(0, s@.len() as int) =~= s@);
        lemma_index_of_char(s@, c);
    }
    if i < n {
        let (f, _) = field_from(s, c, i + 1);
        Some(f)
    } else {
        None
    }
}

/// Whether `s` starts with `p`.
pub(crate) fn starts_with(s: &str, p: &str) -> (r: bool)
    ensures
        r == (s@.len() >= p@.len() && s@.subrange(0, p@.len() as int) == p@),
{
    let n = s.unicode_len();
    let m = p.unicode_len();
    if n < m {
        return false;
    }
    let head = s.substring_char(0, m);
    str_eq(head, p)
}

/// The manifest id encoded in a capacity request id made with `prefix`:
/// `prefix:manifest_id:uuid`, or the older `prefix-manifest_id-uuid`.
pub fn extract_manifest_id_from_request_id(request_id: &str, prefix: &str) -> (r: Option<String>)
    ensures
        match r {
            Some(m) => manifest_id_of_request(request_id@, prefix@) == Some(m@),
            None => manifest_id_of_request(request_id@, prefix@) is None,
        },
{
    let (first, _) = field_from(request_id, ':', 0);
    proof {
        assert(request_id@.subrange(0, request_id@.len() as int) =~= request_id@);
    }
    let colon = second_field_of(request_id, ':');
    if str_eq(first.as_str(), prefix) {
        match colon {
            Some(m) => {
                if !m.as_str().is_empty() {
                    return Some(m);
                }
            },
            None => {},
        }
    }
    if starts_with(request_id, prefix) {
        match second_field_of(request_id, '-') {
            Some(m) => {
                if !m.as_str().is_empty() {
                    return Some(m);
                }
            },
            None => {},
        }
    }
    None
}

/// The id of a capacity request for `task_id`: `prefix:task_id:unique`.
pub fn capacity_request_id(prefix: &str, task_id: &str, unique: &str) -> (id: String)
    ensures
        id@ == prefix@ + ":"@ + task_id@ + ":"@ + unique@,
{
    String::from_str(prefix).concat(":").concat(task_id).concat(":").concat(unique)
}

/// Add a responder to the list of those that answered, once; returns
/// whether enough responders have answered.
pub fn record_responder(responders: &mut Vec<String>, peer: String, max_candidates: usize) -> (done:
    bool)
    ensures
        (exists|i: int| 0 <= i < old(responders)@.len() && #[trigger] old(responders)@[i]@ == peer@)
            ==> final(responders)@ == old(responders)@ && !done,
        !(exists|i: int| 0 <= i < old(responders)@.len() && #[trigger] old(responders)@[i]@ == peer@)
            ==> final(responders)@.map_values(|s: String| s@) == old(responders)@.map_values(
            |s: String| s@,
        ).push(peer@) && done == (final(responders)@.len() >= max_candidates),
{
    let mut i: usize = 0;
    while i < responders.len()
        invariant
            i <= responders@.len(),
            responders@ == old(responders)@,
            forall|j: int| 0 <= j < i ==> #[trigger] responders@[j]@ != peer@,
        decreases responders@.len() - i,
    {
        if str_eq(responders[i].as_str(), peer.as_str()) {
            return false;
        }
        i = i + 1;
    }
    let ghost before = responders@;
    responders.push(peer);
    proof {
        assert(responders@.map_values(|s: String| s@) =~= before.map_values(|s: String| s@).push(
            responders@[before.len() as int]@,
        ));
    }
    responders.len() >= max_candidates
}

/// The candidate read from a responder entry `peer:public-key`: the text
/// before the first colon and after it, when there is a colon and the key
/// is not empty.
pub open spec fn candidate_of(entry: Seq<char>) -> Option<(Seq<char>, Seq<char>)> {
    match after_first(entry, ':') {
        Some(key) => if key.len() > 0 {
            Some((first_field(entry, ':'), key))
        } else {
            None
        },
        None => None,
    }
}

/// The candidates of all entries that have one, in order.
pub open spec fn candidates_of(entries: Seq<Seq<char>>) -> Seq<(Seq<char>, Seq<char>)>
    decreases entries.len(),
{
    if entries.len() == 0 {
        Seq::empty()
    } else {
        let rest = candidates_of(entries.drop_last());
        match candidate_of(entries.last()) {
            Some(c) => rest.push(c),
            None => rest,
        }
    }
}

/// Turn the responder entries (`peer:public-key`) into candidates (peer,
/// public key), skipping entries without a colon or without a key.
pub fn parse_candidates(responders: &Vec<String>) -> (candidates: Vec<(String, String)>)
    ensures
        candidates@.map_values(|c: (String, String)| (c.0@, c.1@)) == candidates_of(
            responders@.map_values(|s: String| s@),
        ),
{
    let ghost all = responders@.map_values(|s: String| s@);
    let mut out: Vec<(String, String)> = Vec::new();
    let mut k: usize = 0;
    while k < responders.len()
        invariant
            k <= responders@.len(),
            all == responders@.map_values(|s: String| s@),
            out@.map_values(|c: (String, String)| (c.0@, c.1@)) == candidates_of(all.take(k as int)),
        decreases responders@.len() - k,
    {
        let entry = responders[k].as_str();
        let n = entry.unicode_len();
        let i = find_char(entry, ':', 0);
        proof {
            assert(entry@.subrange(0, entry@.len() as int) =~= entry@);
            lemma_index_of_char(entry@, ':');
            assert(all.take(k + 1).drop_last() =~= all.take(k as int));
            assert(all.take(k + 1).last() == entry@);
        }
        if i < n {
            let key = entry.substring_char(i + 1, n);
            if !key.is_empty() {
                let peer = entry.substring_char(0, i);
                let ghost before = out@;
                out.push((peer.to_owned(), key.to_owned()));
                proof {
                    assert(out@.map_values(|c: (String, String)| (c.0@, c.1@)) =~= before.map_values(
                        |c: (String, String)| (c.0@, c.1@),
                    ).push((first_field(entry@, ':'), entry@.subrange(i + 1, n as int))));
                }
            }
        }
        k = k + 1;
    }
    proof {
        assert(all.take(k as int) =~= all);
    }
    out
}

/// The responder entry `peer:public-key` handed to those waiting for a
/// capacity query; a missing key leaves the part after the colon empty.
pub fn responder_entry(peer: &str, kem_pub_b64: Option<&str>) -> (s: String)
    ensures
        s@ == peer@ + ":"@ + match kem_pub_b64 {
            Some(k) => k@,
            None => Seq::<char>::empty(),
        },
{
    let out = String::from_str(peer).concat(":");
    match kem_pub_b64 {
        Some(k) => out.concat(k),
        None => {
            proof {
                assert(out@ + Seq::<char>::empty() =~= out@);
            }
            out
        },
    }
}

/// A responder entry made from a peer id without a colon and a non-empty
/// key reads back as that candidate.
pub proof fn lemma_responder_entry_read_back(peer: Seq<char>, key: Seq<char>)
    requires
        !peer.contains(':'),
        key.len() > 0,
    ensures
        candidate_of(peer + ":"@ + key) == Some((peer, key)),
{
    let e = peer + ":"@ + key;
    reveal_strlit(":");
    assert(":"@ =~= seq![':']);
    assert(e[peer.len() as int] == ':');
    assert forall|j: int| 0 <= j < peer.len() implies #[trigger] e[j] != ':' by {
        assert(e[j] == peer[j]);
        if peer[j] == ':' {
            assert(peer.contains(':'));
        }
    }
    lemma_index_of_char_at(e, ':', peer.len() as int);
    assert(e.subrange(0, peer.len() as int) =~= peer);
    assert(e.subrange(peer.len() as int + 1, e.len() as int) =~= key);
}

/// Those waiting for the answers to capacity queries: for each request id,
/// the handles of its subscribers in the order they registered. The caller
/// keeps the channel behind each handle.
#[derive(Debug)]
pub struct PendingQueries {
    entries: Vec<(String, Vec<u64>)>,
}

impl View for PendingQueries {
    type V = Map<Seq<char>, Seq<u64>>;

    closed spec fn view(&self) -> Map<Seq<char>, Seq<u64>> {
        to_map(self.pairs())
    }
}

/// The subscribers of `request_id` after `subscriber` registers for it.
pub open spec fn registered(m: Map<Seq<char>, Seq<u64>>, request_id: Seq<char>, subscriber: u64) -> Map<
    Seq<char>,
    Seq<u64>,
> {
    m.insert(request_id, subscribers_of(m, request_id).push(subscriber))
}

/// The subscribers registered for `request_id` (none when it is unknown).
pub open spec fn subscribers_of(m: Map<Seq<char>, Seq<u64>>, request_id: Seq<char>) -> Seq<u64> {
    if m.contains_key(request_id) {
        m[request_id]
    } else {
        Seq::empty()
    }
}

impl PendingQueries {
    /// The table as (request id, subscribers) pairs.
    pub closed spec fn pairs(&self) -> Seq<(Seq<char>, Seq<u64>)> {
        self.entries@.map_values(|e: (String, Vec<u64>)| (e.0@, e.1@))
    }

    /// Each request id occurs once.
    pub closed spec fn wf(&self) -> bool {
        keys_distinct(self.pairs())
    }

    /// No query is waiting.
    pub fn new() -> (q: Self)
        ensures
            q.wf(),
            q@ == Map::<Seq<char>, Seq<u64>>::empty(),
    {
        let q = PendingQueries { entries: Vec::new() };
        assert(q.pairs() =~= Seq::<(Seq<char>, Seq<u64>)>::empty());
        assert(q@ =~= Map::<Seq<char>, Seq<u64>>::empty());
        q
    }

    fn find(&self, request_id: &str) -> (r: Option<usize>)
        requires
            self.wf(),
        ensures
            match r {
                Some(i) => i < self.entries@.len() && self.pairs()[i as int].0 == request_id@
                    && self@.contains_key(request_id@) && self@[request_id@] == self.entries@[i as int].1@,
                None => !self@.contains_key(request_id@),
            },
    {
        let mut i: usize = 0;
        while i < self.entries.len()
            invariant
                self.wf(),
                i <= self.entries@.len(),
                forall|j: int| 0 <= j < i ==> self.pairs()[j].0 != request_id@,
            decreases self.entries@.len() - i,
        {
            if str_eq(self.entries[i].0.as_str(), request_id) {
                proof {
                    lemma_to_map_value(self.pairs(), i as int);
                }
                return Some(i);
            }
            i = i + 1;
        }
        proof {
            lemma_to_map_dom(self.pairs(), request_id@);
        }
        None
    }

    /// Register `subscriber` for the answers to `request_id`, after those
    /// already registered for it.
    pub fn register(&mut self, request_id: String, subscriber: u64)
        requires
            old(self).wf(),
        ensures
            final(self).wf(),
            final(self)@ == registered(old(self)@, request_id@, subscriber),
    {
        let ghost old_pairs = self.pairs();
        match self.find(request_id.as_str()) {
            Some(i) => {
                let (key, mut subs) = self.entries.remove(i);
                let ghost prev = subs@;
                subs.push(subscriber);
                self.entries.insert(i, (key, subs));
                proof {
                    assert(self.pairs() =~= old_pairs.update(
                        i as int,
                        (old_pairs[i as int].0, prev.push(subscriber)),
                    ));
                    lemma_update(old_pairs, i as int, prev.push(subscriber));
                }
            },
            None => {
                let ghost key = request_id@;
                let mut subs: Vec<u64> = Vec::new();
                subs.push(subscriber);
                self.entries.push((request_id, subs));
                proof {
                    assert(subs@ =~= Seq::<u64>::empty().push(subscriber));
                    assert(self.pairs() =~= old_pairs.push((key, Seq::<u64>::empty().push(subscriber))));
                    lemma_push(old_pairs, key, Seq::<u64>::empty().push(subscriber));
                }
            },
        }
    }

    /// The subscribers to hand an answer to `request_id` to, in the order
    /// they registered; none when nobody waits for it.
    pub fn subscribers(&self, request_id: &str) -> (r: Vec<u64>)
        requires
            self.wf(),
        ensures
            r@ == subscribers_of(self@, request_id@),
    {
        match self.find(request_id) {
            Some(i) => {
                let mut out: Vec<u64> = Vec::new();
                let subs = &self.entries[i].1;
                let mut k: usize = 0;
                while k < subs.len()
                    invariant
                        k <= subs@.len(),
                        out@ == subs@.take(k as int),
                    decreases subs@.len() - k,
                {
                    out.push(subs[k]);
                    proof {
                        assert(subs@.take(k + 1) =~= subs@.take(k as int).push(subs@[k as int]));
                    }
                    k = k + 1;
                }
                proof {
                    assert(subs@.take(k as int) =~= subs@);
                }
                out
            },
            None => Vec::new(),
        }
    }
}

/// Every subscriber that registers for a query is among those an answer to
/// that query is handed to, after those that registered before it; the
/// subscribers of other queries do not change.
pub proof fn lemma_registered_subscriber_answered(
    m: Map<Seq<char>, Seq<u64>>,
    request_id: Seq<char>,
    subscriber: u64,
    other: Seq<char>,
)
    ensures
        subscribers_of(registered(m, request_id, subscriber), request_id) == subscribers_of(
            m,
            request_id,
        ).push(subscriber),
        other != request_id ==> subscribers_of(registered(m, request_id, subscriber), other)
            == subscribers_of(m, other),
{
}

} // verus!
