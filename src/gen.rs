//! Size-bounded pseudo-random generation and shrinking of test arguments.

use vstd::prelude::*;

verus! {

/// Seed used by `Gen::new`.
pub const DEFAULT_SEED: u64 = 0x853c49e6748fea9b;

/// A size-bounded pseudo-random source. The size bounds the magnitude of
/// generated numbers and the length of generated sequences.
#[derive(Clone, Debug)]
pub struct Gen {
    size: usize,
    state: u64,
}

impl Gen {
    pub closed spec fn spec_size(&self) -> nat {
        self.size as nat
    }

    /// A generator of the given size with the default seed.
    pub fn new(size: usize) -> (r: Gen)
        ensures
            r.spec_size() == size,
    {
        Gen { size, state: DEFAULT_SEED }
    }

    /// A generator of the given size whose sequence is fixed by `seed`.
    pub fn from_seed(size: usize, seed: u64) -> (r: Gen)
        ensures
            r.spec_size() == size,
    {
        Gen { size, state: seed }
    }

    pub fn size(&self) -> (r: usize)
        ensures
            r == self.spec_size(),
    {
        self.size
    }

    /// The next pseudo-random word of the sequence.
    pub fn next_u64(&mut self) -> (r: u64)
        ensures
            final(self).spec_size() == old(self).spec_size(),
    {
        self.state = self.state.wrapping_add(0x9e3779b97f4a7c15);
        let mut z = self.state;
        z = (z ^ (z >> 30u64)).wrapping_mul(0xbf58476d1ce4e5b9);
        z = (z ^ (z >> 27u64)).wrapping_mul(0x94d049bb133111eb);
        z ^ (z >> 31u64)
    }

    /// A pseudo-random number in `0..=max`.
    pub fn gen_upto(&mut self, max: u64) -> (r: u64)
        ensures
            r <= max,
            final(self).spec_size() == old(self).spec_size(),
    {
        let x = self.next_u64();
        if max == u64::MAX {
            x
        } else {
            x % (max + 1)
        }
    }

    /// A pseudo-random number in `0..=min(size, max)`.
    pub fn gen_sized(&mut self, max: u64) -> (r: u64)
        ensures
            r <= max,
            r <= old(self).spec_size(),
            final(self).spec_size() == old(self).spec_size(),
    {
        let size = self.size as u64;
        let bound = if size < max { size } else { max };
        self.gen_upto(bound)
    }

    pub fn gen_bool(&mut self) -> (r: bool)
        ensures
            final(self).spec_size() == old(self).spec_size(),
    {
        self.next_u64() % 2 == 1
    }
}

/// The generate/shrink capability of an argument type.
pub trait Arbitrary: Clone + Sized {
    /// The strictly simpler candidates of this value, in the order they are
    /// to be tried; the same list each time it is derived. Generic code knows
    /// only what `shrink` ensures of it; an implementation whose `shrink` is
    /// verified defines it.
    closed spec fn shrink_spec(&self) -> Seq<Self> {
        arbitrary()
    }

    /// A random value whose magnitude is bounded by the generator's size.
    fn arbitrary(g: &mut Gen) -> (r: Self)
        ensures
            final(g).spec_size() == old(g).spec_size(),
    ;

    /// The candidates, none of them the value itself.
    fn shrink(&self) -> (r: Vec<Self>)
        ensures
            r@ == self.shrink_spec(),
            forall|i: int| 0 <= i < r@.len() ==> r@[i] != *self,
    ;
}

/// `x - d`, `x - d/2`, `x - d/4`, ... while the step is positive.
pub open spec fn closing_in(x: u64, d: u64) -> Seq<u64>
    decreases d,
{
    if d == 0 {
        Seq::empty()
    } else {
        seq![(x - d) as u64].add(closing_in(x, d / 2))
    }
}

/// The candidates of a number: none for zero; otherwise zero, then values
/// closing in on `x` from below by halving steps.
pub open spec fn shrink_u64_spec(x: u64) -> Seq<u64> {
    if x == 0 {
        Seq::empty()
    } else {
        seq![0u64].add(closing_in(x, x / 2))
    }
}

proof fn lemma_closing_in_below(x: u64, d: u64)
    requires
        d <= x,
        0 < x,
    ensures
        forall|i: int| 0 <= i < closing_in(x, d).len() ==> #[trigger] closing_in(x, d)[i] < x,
    decreases d,
{
    if d > 0 {
        lemma_closing_in_below(x, d / 2);
        let rest = closing_in(x, d / 2);
        assert forall|i: int| 0 <= i < closing_in(x, d).len() implies #[trigger] closing_in(x, d)[i] < x by {
            if i > 0 {
                assert(closing_in(x, d)[i] == rest[i - 1]);
            }
        }
    }
}

/// Shrink candidates of a number: zero first, then values closing in on `x`
/// from below.
pub fn shrink_u64(x: u64) -> (r: Vec<u64>)
    ensures
        r@ == shrink_u64_spec(x),
        forall|i: int| 0 <= i < r@.len() ==> r@[i] < x,
{
    let mut r: Vec<u64> = Vec::new();
    if x == 0 {
        return r;
    }
    r.push(0);
    let mut d: u64 = x / 2;
    while d > 0
        invariant
            0 < x,
            d <= x / 2,
            r@.add(closing_in(x, d)) == shrink_u64_spec(x),
        decreases d,
    {
        let ghost before = r@;
        r.push(x - d);
        proof {
            assert(before.add(closing_in(x, d)) =~= r@.add(closing_in(x, d / 2)));
        }
        d = d / 2;
    }
    proof {
        assert(r@.add(closing_in(x, d)) =~= r@);
        lemma_closing_in_below(x, x / 2);
        assert forall|i: int| 0 <= i < r@.len() implies r@[i] < x by {
            if i > 0 {
                assert(r@[i] == closing_in(x, x / 2)[i - 1]);
            }
        }
    }
    r
}

/// A random number no greater than the generator's size nor `max`.
pub fn arbitrary_u64(g: &mut Gen, max: u64) -> (r: u64)
    ensures
        r <= max,
        r <= old(g).spec_size(),
        final(g).spec_size() == old(g).spec_size(),
{
    g.gen_sized(max)
}

/// A random vector no longer than the generator's size.
pub fn arbitrary_vec<T: Arbitrary>(g: &mut Gen) -> (r: Vec<T>)
    ensures
        r@.len() <= old(g).spec_size(),
        final(g).spec_size() == old(g).spec_size(),
{
    let n = g.gen_sized(u64::MAX);
    let mut v: Vec<T> = Vec::new();
    let mut i: u64 = 0;
    while i < n
        invariant
            i <= n,
            n <= g.spec_size(),
            v@.len() == i,
            g.spec_size() == old(g).spec_size(),
        decreases n - i,
    {
        v.push(T::arbitrary(g));
        i = i + 1;
    }
    v
}

impl Arbitrary for u64 {
    open spec fn shrink_spec(&self) -> Seq<u64> {
        shrink_u64_spec(*self)
    }

    fn arbitrary(g: &mut Gen) -> (r: u64) {
        arbitrary_u64(g, u64::MAX)
    }

    fn shrink(&self) -> (r: Vec<u64>) {
        shrink_u64(*self)
    }
}

/// The candidates of `x` narrowed to a smaller integer type.
pub open spec fn narrowed_u32(c: Seq<u64>) -> Seq<u32> {
    c.map_values(|v: u64| v as u32)
}

pub open spec fn narrowed_usize(c: Seq<u64>) -> Seq<usize> {
    c.map_values(|v: u64| v as usize)
}

impl Arbitrary for u32 {
    open spec fn shrink_spec(&self) -> Seq<u32> {
        narrowed_u32(shrink_u64_spec(*self as u64))
    }

    fn arbitrary(g: &mut Gen) -> (r: u32) {
        arbitrary_u64(g, u32::MAX as u64) as u32
    }

    fn shrink(&self) -> (r: Vec<u32>) {
        let c = shrink_u64(*self as u64);
        let mut r: Vec<u32> = Vec::new();
        let mut i: usize = 0;
        while i < c.len()
            invariant
                0 <= i <= c@.len(),
                c@ == shrink_u64_spec(*self as u64),
                forall|k: int| 0 <= k < c@.len() ==> c@[k] < *self as u64,
                r@ =~= narrowed_u32(c@.take(i as int)),
            decreases c@.len() - i,
        {
            r.push(c[i] as u32);
            assert(c@.take(i + 1) =~= c@.take(i as int).push(c@[i as int]));
            i = i + 1;
        }
        assert(c@.take(i as int) =~= c@);
        r
    }
}

impl Arbitrary for usize {
    open spec fn shrink_spec(&self) -> Seq<usize> {
        narrowed_usize(shrink_u64_spec(*self as u64))
    }

    fn arbitrary(g: &mut Gen) -> (r: usize) {
        arbitrary_u64(g, usize::MAX as u64) as usize
    }

    fn shrink(&self) -> (r: Vec<usize>) {
        let c = shrink_u64(*self as u64);
        let mut r: Vec<usize> = Vec::new();
        let mut i: usize = 0;
        while i < c.len()
            invariant
                0 <= i <= c@.len(),
                c@ == shrink_u64_spec(*self as u64),
                forall|k: int| 0 <= k < c@.len() ==> c@[k] < *self as u64,
                r@ =~= narrowed_usize(c@.take(i as int)),
            decreases c@.len() - i,
        {
            r.push(c[i] as usize);
            assert(c@.take(i + 1) =~= c@.take(i as int).push(c@[i as int]));
            i = i + 1;
        }
        assert(c@.take(i as int) =~= c@);
        r
    }
}

impl Arbitrary for bool {
    open spec fn shrink_spec(&self) -> Seq<bool> {
        if *self {
            seq![false]
        } else {
            Seq::empty()
        }
    }

    fn arbitrary(g: &mut Gen) -> (r: bool) {
        g.gen_bool()
    }

    fn shrink(&self) -> (r: Vec<bool>) {
        if *self {
            let r = vec![false];
            assert(r@ =~= seq![false]);
            r
        } else {
            let r: Vec<bool> = Vec::new();
            assert(r@ =~= Seq::<bool>::empty());
            r
        }
    }
}

/// One of eight lower-case letters.
fn letter(i: u64) -> (r: &'static str)
    ensures
        r@.len() == 1,
{
    proof {
        reveal_strlit("a");
        reveal_strlit("b");
        reveal_strlit("c");
        reveal_strlit("d");
        reveal_strlit("e");
        reveal_strlit("f");
        reveal_strlit("g");
        reveal_strlit("h");
    }
    match i % 8 {
        0 => "a",
        1 => "b",
        2 => "c",
        3 => "d",
        4 => "e",
        5 => "f",
        6 => "g",
        _ => "h",
    }
}

/// A random string of at most `size` characters.
pub fn arbitrary_string(g: &mut Gen) -> (r: String)
    ensures
        r@.len() <= old(g).spec_size(),
        final(g).spec_size() == old(g).spec_size(),
{
    let n = g.gen_sized(u64::MAX);
    let mut s = String::new();
    let mut i: u64 = 0;
    while i < n
        invariant
            i <= n,
            n <= g.spec_size(),
            g.spec_size() == old(g).spec_size(),
            s@.len() == i,
        decreases n - i,
    {
        let k = g.next_u64();
        s.append(letter(k));
        i = i + 1;
    }
    s
}

/// The candidates of a string: the empty string, for a non-empty one.
pub fn shrink_string(s: &String) -> (r: Vec<String>)
    ensures
        s@.len() == 0 ==> r@.len() == 0,
        s@.len() > 0 ==> r@.len() == 1 && r@[0]@.len() == 0,
{
    if s.as_str().unicode_len() == 0 {
        Vec::new()
    } else {
        vec![String::new()]
    }
}

/// `v` without its element at `skip`, the others cloned in order.
pub fn without<T: Clone>(v: &Vec<T>, skip: usize) -> (r: Vec<T>)
    requires
        skip < v@.len(),
    ensures
        r@.len() == v@.len() - 1,
        forall|j: int| 0 <= j < skip ==> cloned(v@[j], #[trigger] r@[j]),
        forall|j: int| skip <= j < r@.len() ==> cloned(v@[j + 1], #[trigger] r@[j]),
{
    let mut r: Vec<T> = Vec::new();
    let mut j: usize = 0;
    while j < v.len()
        invariant
            0 <= j <= v@.len(),
            skip < v@.len(),
            r@.len() == (if j <= skip { j as int } else { j - 1 }),
            forall|k: int| 0 <= k < r@.len() && k < skip ==> cloned(v@[k], #[trigger] r@[k]),
            forall|k: int| skip <= k < r@.len() ==> cloned(v@[k + 1], #[trigger] r@[k]),
        decreases v@.len() - j,
    {
        if j != skip {
            let c = v[j].clone();
            r.push(c);
        }
        j = j + 1;
    }
    r
}

/// `v` with its element at `at` replaced by a clone of `x`, the others
/// cloned in place.
pub fn replaced<T: Clone>(v: &Vec<T>, at: usize, x: &T) -> (r: Vec<T>)
    requires
        at < v@.len(),
    ensures
        r@.len() == v@.len(),
        cloned(*x, r@[at as int]),
        forall|j: int| 0 <= j < r@.len() && j != at ==> cloned(v@[j], #[trigger] r@[j]),
{
    let mut r: Vec<T> = Vec::new();
    let mut j: usize = 0;
    while j < v.len()
        invariant
            0 <= j <= v@.len(),
            at < v@.len(),
            r@.len() == j,
            j > at ==> cloned(*x, r@[at as int]),
            forall|k: int| 0 <= k < r@.len() && k != at ==> cloned(v@[k], #[trigger] r@[k]),
        decreases v@.len() - j,
    {
        if j == at {
            let c = x.clone();
            r.push(c);
        } else {
            let c = v[j].clone();
            r.push(c);
        }
        j = j + 1;
    }
    r
}

/// The candidates of a vector: the empty vector; then, from three elements
/// up, each element alone; then each one-element removal, left to right;
/// then each element shrunk in place, left to right, the others held fixed.
pub fn shrink_vec<T: Arbitrary>(v: &Vec<T>) -> (r: Vec<Vec<T>>)
    ensures
        v@.len() == 0 ==> r@.len() == 0,
        v@.len() > 0 ==> r@.len() > 0 && r@[0]@.len() == 0,
{
    let mut r: Vec<Vec<T>> = Vec::new();
    if v.len() == 0 {
        return r;
    }
    r.push(Vec::new());
    if v.len() > 2 {
        let mut i: usize = 0;
        while i < v.len()
            invariant
                0 <= i <= v@.len(),
                v@.len() > 0 ==> r@.len() > 0 && r@[0]@.len() == 0,
            decreases v@.len() - i,
        {
            r.push(vec![v[i].clone()]);
            i = i + 1;
        }
    }
    let mut i: usize = 0;
    while i < v.len()
        invariant
            0 <= i <= v@.len(),
            v@.len() > 0 ==> r@.len() > 0 && r@[0]@.len() == 0,
        decreases v@.len() - i,
    {
        r.push(without(v, i));
        i = i + 1;
    }
    let mut i: usize = 0;
    while i < v.len()
        invariant
            0 <= i <= v@.len(),
            v@.len() > 0 ==> r@.len() > 0 && r@[0]@.len() == 0,
        decreases v@.len() - i,
    {
        let smaller = v[i].shrink();
        let mut k: usize = 0;
        while k < smaller.len()
            invariant
                0 <= i < v@.len(),
                0 <= k <= smaller@.len(),
                v@.len() > 0 ==> r@.len() > 0 && r@[0]@.len() == 0,
            decreases smaller@.len() - k,
        {
            r.push(replaced(v, i, &smaller[k]));
            k = k + 1;
        }
        i = i + 1;
    }
    r
}

} // verus!
