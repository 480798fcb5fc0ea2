//! A map from directory paths to what a scan learned about them, kept as a
//! vector sorted by path so that lookups are binary searches.

use vstd::prelude::*;

verus! {

broadcast use vstd::seq_lib::group_seq_properties;

/// What a scan accumulated for one directory.
#[derive(Clone, Copy, Debug, PartialEq, Eq, Structural)]
pub struct DirInfo {
    /// Bytes of all regular files below the directory.
    pub size: u64,
    /// Files and directories directly inside it.
    pub children: usize,
    /// Some entry directly inside it could not be examined.
    pub error: bool,
}

/// The record of a directory nothing was learned about.
pub open spec fn empty_info() -> DirInfo {
    DirInfo { size: 0, children: 0, error: false }
}

/// Lexicographic order of character sequences, by code point.
pub open spec fn lex_lt(a: Seq<char>, b: Seq<char>) -> bool
    decreases a.len(),
{
    if a.len() == 0 {
        b.len() > 0
    } else if b.len() == 0 {
        false
    } else if a[0] != b[0] {
        (a[0] as u32) < (b[0] as u32)
    } else {
        lex_lt(a.drop_first(), b.drop_first())
    }
}

proof fn lemma_lex_irreflexive(a: Seq<char>)
    ensures
        !lex_lt(a, a),
    decreases a.len(),
{
    if a.len() > 0 {
        lemma_lex_irreflexive(a.drop_first());
    }
}

proof fn lemma_lex_asymmetric(a: Seq<char>, b: Seq<char>)
    ensures
        lex_lt(a, b) ==> !lex_lt(b, a),
    decreases a.len(),
{
    if a.len() > 0 && b.len() > 0 && a[0] == b[0] {
        lemma_lex_asymmetric(a.drop_first(), b.drop_first());
    }
}

proof fn lemma_lex_transitive(a: Seq<char>, b: Seq<char>, c: Seq<char>)
    requires
        lex_lt(a, b),
        lex_lt(b, c),
    ensures
        lex_lt(a, c),
    decreases a.len(),
{
    if a.len() > 0 && b.len() > 0 && c.len() > 0 && a[0] == b[0] && b[0] == c[0] {
        lemma_lex_transitive(a.drop_first(), b.drop_first(), c.drop_first());
    }
}

proof fn lemma_lex_total(a: Seq<char>, b: Seq<char>)
    ensures
        a != b ==> lex_lt(a, b) || lex_lt(b, a),
    decreases a.len(),
{
    if a.len() > 0 && b.len() > 0 && a[0] == b[0] {
        lemma_lex_total(a.drop_first(), b.drop_first());
        if a.drop_first() == b.drop_first() {
            assert(a =~= seq![a[0]] + a.drop_first());
            assert(b =~= seq![b[0]] + b.drop_first());
        }
    } else if a.len() == 0 && b.len() == 0 {
        assert(a =~= b);
    } else if a.len() > 0 && b.len() > 0 {
        vstd::utf8::char_u32_cast(a[0], a[0] as u32);
        vstd::utf8::char_u32_cast(b[0], b[0] as u32);
    }
}

/// Equal leading characters do not decide the order.
proof fn lemma_lex_skip(a: Seq<char>, b: Seq<char>, i: int)
    requires
        0 <= i <= a.len(),
        i <= b.len(),
        a.take(i) == b.take(i),
    ensures
        lex_lt(a, b) == lex_lt(a.skip(i), b.skip(i)),
    decreases i,
{
    if i > 0 {
        assert(a[0] == a.take(i)[0]);
        assert(b[0] == b.take(i)[0]);
        assert(a.drop_first().take(i - 1) =~= a.take(i).drop_first());
        assert(b.drop_first().take(i - 1) =~= b.take(i).drop_first());
        lemma_lex_skip(a.drop_first(), b.drop_first(), i - 1);
        assert(a.drop_first().skip(i - 1) =~= a.skip(i));
        assert(b.drop_first().skip(i - 1) =~= b.skip(i));
    } else {
        assert(a.skip(0) =~= a);
        assert(b.skip(0) =~= b);
    }
}

/// Outcome of comparing two keys.
pub enum KeyOrder {
    Less,
    Equal,
    Greater,
}

/// Compares two character sequences lexicographically.
fn compare_keys(a: &[char], b: &[char]) -> (r: KeyOrder)
    ensures
        r is Less ==> lex_lt(a@, b@),
        r is Equal ==> a@ == b@,
        r is Greater ==> lex_lt(b@, a@),
{
    let mut i: usize = 0;
    while i < a.len() && i < b.len() && a[i] == b[i]
        invariant
            i <= a@.len(),
            i <= b@.len(),
            a@.take(i as int) == b@.take(i as int),
        decreases a@.len() - i,
    {
        assert(a@.take(i + 1) =~= a@.take(i as int).push(a@[i as int]));
        assert(b@.take(i + 1) =~= b@.take(i as int).push(b@[i as int]));
        i = i + 1;
    }
    proof {
        lemma_lex_skip(a@, b@, i as int);
        lemma_lex_skip(b@, a@, i as int);
    }
    if i < a.len() {
        assert(a@.skip(i as int)[0] == a@[i as int]);
    }
    if i < b.len() {
        assert(b@.skip(i as int)[0] == b@[i as int]);
    }
    if i == a.len() && i == b.len() {
        assert(a@ =~= a@.take(i as int));
        assert(b@ =~= b@.take(i as int));
        KeyOrder::Equal
    } else if i == a.len() {
        assert(a@.skip(i as int).len() == 0);
        assert(lex_lt(a@.skip(i as int), b@.skip(i as int)));
        assert(lex_lt(a@, b@));
        KeyOrder::Less
    } else if i == b.len() {
        assert(b@.skip(i as int).len() == 0);
        KeyOrder::Greater
    } else if (a[i] as u32) < (b[i] as u32) {
        assert(a@.skip(i as int)[0] != b@.skip(i as int)[0]);
        assert(lex_lt(a@.skip(i as int), b@.skip(i as int)));
        assert(lex_lt(a@, b@));
        KeyOrder::Less
    } else {
        proof {
            vstd::utf8::char_u32_cast(a@[i as int], a@[i as int] as u32);
            vstd::utf8::char_u32_cast(b@[i as int], b@[i as int] as u32);
        }
        assert(b@.skip(i as int)[0] != a@.skip(i as int)[0]);
        assert(lex_lt(b@.skip(i as int), a@.skip(i as int)));
        KeyOrder::Greater
    }
}

/// Directory records keyed by path, stored sorted by path.
#[derive(Clone)]
pub struct DirMap {
    keys: Vec<Vec<char>>,
    vals: Vec<DirInfo>,
    contents: Ghost<Map<Seq<char>, DirInfo>>,
}

impl DirMap {
    /// The records, by path.
    pub closed spec fn view(&self) -> Map<Seq<char>, DirInfo> {
        self.contents@
    }

    /// The stored keys are sorted, distinct, and exactly the map's domain.
    pub closed spec fn wf(&self) -> bool {
        &&& self.keys@.len() == self.vals@.len()
        &&& forall|i: int, j: int|
            0 <= i < j < self.keys@.len() ==> lex_lt(
                #[trigger] self.keys@[i]@,
                #[trigger] self.keys@[j]@,
            )
        &&& forall|i: int|
            0 <= i < self.keys@.len() ==> self.contents@.contains_key(#[trigger] self.keys@[i]@)
                && self.contents@[self.keys@[i]@] == self.vals@[i]
        &&& forall|k: Seq<char>|
            #[trigger] self.contents@.contains_key(k) ==> exists|i: int|
                0 <= i < self.keys@.len() && #[trigger] self.keys@[i]@ == k
    }

    /// No record at all.
    pub fn new() -> (r: Self)
        ensures
            r.wf(),
            r@ == Map::<Seq<char>, DirInfo>::empty(),
    {
        DirMap { keys: Vec::new(), vals: Vec::new(), contents: Ghost(Map::empty()) }
    }

    /// Where `k` is, or where it would go.
    fn search(&self, k: &[char]) -> (r: Result<usize, usize>)
        requires
            self.wf(),
        ensures
            match r {
                Ok(i) => i < self.keys@.len() && self.keys@[i as int]@ == k@,
                Err(i) => i <= self.keys@.len() && (forall|j: int|
                    0 <= j < i ==> lex_lt(#[trigger] self.keys@[j]@, k@)) && (forall|j: int|
                    i <= j < self.keys@.len() ==> lex_lt(k@, #[trigger] self.keys@[j]@)),
            },
    {
        let mut lo: usize = 0;
        let mut hi: usize = self.keys.len();
        while lo < hi
            invariant
                self.wf(),
                lo <= hi <= self.keys@.len(),
                forall|j: int| 0 <= j < lo ==> lex_lt(#[trigger] self.keys@[j]@, k@),
                forall|j: int| hi <= j < self.keys@.len() ==> lex_lt(k@, #[trigger] self.keys@[j]@),
            decreases hi - lo,
        {
            let mid = lo + (hi - lo) / 2;
            match compare_keys(self.keys[mid].as_slice(), k) {
                KeyOrder::Equal => {
                    return Ok(mid);
                },
                KeyOrder::Less => {
                    assert forall|j: int| 0 <= j < mid + 1 implies lex_lt(
                        #[trigger] self.keys@[j]@,
                        k@,
                    ) by {
                        if j < mid {
                            lemma_lex_transitive(self.keys@[j]@, self.keys@[mid as int]@, k@);
                        }
                    }
                    lo = mid + 1;
                },
                KeyOrder::Greater => {
                    assert forall|j: int| mid <= j < self.keys@.len() implies lex_lt(
                        k@,
                        #[trigger] self.keys@[j]@,
                    ) by {
                        if j > mid {
                            lemma_lex_transitive(k@, self.keys@[mid as int]@, self.keys@[j]@);
                        }
                    }
                    hi = mid;
                },
            }
        }
        Err(lo)
    }

    /// The record of `k`, if any.
    pub fn get(&self, k: &[char]) -> (r: Option<DirInfo>)
        requires
            self.wf(),
        ensures
            match r {
                Some(v) => self@.contains_key(k@) && self@[k@] == v,
                None => !self@.contains_key(k@),
            },
    {
        match self.search(k) {
            Ok(i) => Some(self.vals[i]),
            Err(i) => {
                proof {
                    if self@.contains_key(k@) {
                        let j = choose|j: int| 0 <= j < self.keys@.len() && #[trigger] self.keys@[j]@ == k@;
                        lemma_lex_irreflexive(k@);
                        assert(false);
                    }
                }
                None
            },
        }
    }

    /// The record of `k`, or the empty record.
    pub fn get_or_empty(&self, k: &[char]) -> (r: DirInfo)
        requires
            self.wf(),
        ensures
            r == (if self@.contains_key(k@) {
                self@[k@]
            } else {
                empty_info()
            }),
    {
        match self.get(k) {
            Some(v) => v,
            None => DirInfo { size: 0, children: 0, error: false },
        }
    }

    /// Sets the record of `k` to `v`.
    pub fn put(&mut self, k: Vec<char>, v: DirInfo)
        requires
            old(self).wf(),
        ensures
            final(self).wf(),
            final(self)@ == old(self)@.insert(k@, v),
    {
        match self.search(k.as_slice()) {
            Ok(i) => {
                self.vals.set(i, v);
                self.contents = Ghost(self.contents@.insert(k@, v));
                assert forall|i2: int, j2: int|
                    0 <= i2 < j2 < self.keys@.len() implies lex_lt(
                    #[trigger] self.keys@[i2]@,
                    #[trigger] self.keys@[j2]@,
                ) by {
                    assert(self.keys@ == old(self).keys@);
                }
                assert forall|i2: int| 0 <= i2 < self.keys@.len() implies self.contents@.contains_key(
                    #[trigger] self.keys@[i2]@,
                ) && self.contents@[self.keys@[i2]@] == self.vals@[i2] by {
                    if i2 != i {
                        if self.keys@[i2]@ == k@ {
                            if i2 < i {
                                assert(lex_lt(self.keys@[i2]@, self.keys@[i as int]@));
                            } else {
                                assert(lex_lt(self.keys@[i as int]@, self.keys@[i2]@));
                            }
                            lemma_lex_irreflexive(k@);
                        }
                    }
                }
                assert forall|k2: Seq<char>| #[trigger] self.contents@.contains_key(k2) implies exists|
                    i2: int,
                | 0 <= i2 < self.keys@.len() && #[trigger] self.keys@[i2]@ == k2 by {
                    if k2 == k@ {
                        assert(self.keys@[i as int]@ == k2);
                    } else {
                        assert(old(self).contents@.contains_key(k2));
                    }
                }
            },
            Err(i) => {
                let ghost kv = k@;
                let ghost ok = old(self).keys@;
                self.keys.insert(i, k);
                self.vals.insert(i, v);
                self.contents = Ghost(self.contents@.insert(kv, v));
                assert forall|i2: int, j2: int|
                    0 <= i2 < j2 < self.keys@.len() implies lex_lt(
                    #[trigger] self.keys@[i2]@,
                    #[trigger] self.keys@[j2]@,
                ) by {
                    if j2 < i {
                        assert(self.keys@[i2] == ok[i2] && self.keys@[j2] == ok[j2]);
                    } else if j2 == i {
                        assert(self.keys@[i2] == ok[i2]);
                    } else if i2 < i {
                        assert(self.keys@[i2] == ok[i2] && self.keys@[j2] == ok[j2 - 1]);
                        lemma_lex_transitive(ok[i2]@, kv, ok[j2 - 1]@);
                    } else if i2 == i {
                        assert(self.keys@[j2] == ok[j2 - 1]);
                    } else {
                        assert(self.keys@[i2] == ok[i2 - 1] && self.keys@[j2] == ok[j2 - 1]);
                    }
                }
                assert forall|i2: int| 0 <= i2 < self.keys@.len() implies self.contents@.contains_key(
                    #[trigger] self.keys@[i2]@,
                ) && self.contents@[self.keys@[i2]@] == self.vals@[i2] by {
                    if i2 < i {
                        assert(self.keys@[i2] == ok[i2]);
                        lemma_lex_irreflexive(kv);
                    } else if i2 > i {
                        assert(self.keys@[i2] == ok[i2 - 1]);
                        lemma_lex_irreflexive(kv);
                    }
                }
                assert forall|k2: Seq<char>| #[trigger] self.contents@.contains_key(k2) implies exists|
                    i2: int,
                | 0 <= i2 < self.keys@.len() && #[trigger] self.keys@[i2]@ == k2 by {
                    if k2 == kv {
                        assert(self.keys@[i as int]@ == k2);
                    } else {
                        assert(old(self).contents@.contains_key(k2));
                        let j = choose|j: int| 0 <= j < ok.len() && #[trigger] ok[j]@ == k2;
                        if j < i {
                            assert(self.keys@[j]@ == k2);
                        } else {
                            assert(self.keys@[j + 1]@ == k2);
                        }
                    }
                }
            },
        }
    }
}

} // verus!
