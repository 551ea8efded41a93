//! Reusable device buffers: power-of-two buckets, best-fit reuse and a cap on idle bytes.
use vstd::prelude::*;

verus! {

/// Idle bytes past which `trim` frees buffers.
pub const POOL_CAP_BYTES: usize = 3221225472;

/// Smallest bucket, in elements.
pub const MIN_BUCKET: usize = 256;

/// A power of two.
pub open spec fn is_pow2(x: int) -> bool
    decreases x,
{
    x == 1 || (x > 1 && x % 2 == 0 && is_pow2(x / 2))
}

/// The bucket that a request for `n` elements needs: the smallest power of two, 256 at least, that
/// holds it.
pub open spec fn is_bucket_up(n: int, b: int) -> bool {
    &&& is_pow2(b)
    &&& b >= n
    &&& b >= MIN_BUCKET
    &&& b == MIN_BUCKET || b / 2 < n
}

/// The bucket that a buffer of `cap` elements can serve: the largest power of two inside it, or none
/// below 256.
pub open spec fn is_bucket_down(cap: int, b: int) -> bool {
    if cap < MIN_BUCKET {
        b == 0
    } else {
        is_pow2(b) && b <= cap < 2 * b
    }
}

/// Distinct powers of two are a factor of two apart.
pub proof fn lemma_pow2_gap(a: int, b: int)
    requires
        is_pow2(a),
        is_pow2(b),
        a < b,
    ensures
        2 * a <= b,
    decreases b,
{
    if a > 1 {
        lemma_pow2_gap(a / 2, b / 2);
    }
}

/// The bucket of a request is determined by it.
pub proof fn law_bucket_up_is_unique(n: int, a: int, b: int)
    requires
        is_bucket_up(n, a),
        is_bucket_up(n, b),
    ensures
        a == b,
{
    if a < b {
        lemma_pow2_gap(a, b);
    } else if b < a {
        lemma_pow2_gap(b, a);
    }
}

/// The bucket that a buffer serves is determined by its capacity.
pub proof fn law_bucket_down_is_unique(cap: int, a: int, b: int)
    requires
        is_bucket_down(cap, a),
        is_bucket_down(cap, b),
    ensures
        a == b,
{
    if a < b {
        lemma_pow2_gap(a, b);
    } else if b < a {
        lemma_pow2_gap(b, a);
    }
}

/// A buffer filed under the bucket that a request needs is big enough for it, and bucketing costs less
/// than a factor of two.
pub proof fn law_filed_buffer_is_big_enough(n: int, cap: int, b: int)
    requires
        is_bucket_up(n, b),
        is_bucket_down(cap, b),
    ensures
        cap >= n,
        n >= MIN_BUCKET ==> b < 2 * n,
{
    assert(is_pow2(256)) by {
        reveal_with_fuel(is_pow2, 9);
    }
}

/// What a request for `n` elements needs.
pub fn bucket_up(n: usize) -> (b: usize)
    requires
        n <= usize::MAX / 2 + 1,
    ensures
        is_bucket_up(n as int, b as int),
{
    let mut p: usize = MIN_BUCKET;
    proof {
        reveal_with_fuel(is_pow2, 9);
    }
    while p < n
        invariant
            n <= usize::MAX / 2 + 1,
            p >= MIN_BUCKET,
            is_pow2(p as int),
            p == MIN_BUCKET || p / 2 < n,
        decreases 2 * n - p,
    {
        proof {
            assert((2 * p) / 2 == p);
        }
        p = p * 2;
    }
    p
}

/// What a buffer of `cap` elements can serve.
///
/// Filing goes by the buffer's true capacity, never by the size its holder asked for: not every buffer
/// that comes back was allocated by the pool.
pub fn bucket_down(cap: usize) -> (b: usize)
    ensures
        is_bucket_down(cap as int, b as int),
{
    if cap < MIN_BUCKET {
        return 0;
    }
    let mut p: usize = MIN_BUCKET;
    proof {
        reveal_with_fuel(is_pow2, 9);
    }
    while p <= cap / 2
        invariant
            MIN_BUCKET <= p <= cap,
            is_pow2(p as int),
        decreases cap - p,
    {
        proof {
            assert((2 * p) / 2 == p);
        }
        p = p * 2;
    }
    p
}

/// An idle buffer, its capacity in elements, and the bucket it is filed under.
pub struct Idle<T> {
    pub buf: T,
    pub len: usize,
    pub bucket: usize,
}

/// What the pool answers to a request.
pub enum Acquire<T> {
    /// An idle buffer, with its capacity. Its contents are whatever they were.
    Reuse(T, usize),
    /// Nothing fits: allocate this many elements, zeroed.
    Allocate(usize),
}

/// Elements of all idle buffers together.
pub open spec fn idle_elems<T>(v: Seq<Idle<T>>) -> int
    decreases v.len(),
{
    if v.len() == 0 {
        0
    } else {
        idle_elems(v.drop_last()) + v.last().len
    }
}

/// Index of the first idle buffer in bucket `b`, or the length.
pub open spec fn first_in_bucket<T>(v: Seq<Idle<T>>, b: int) -> int
    decreases v.len(),
{
    if v.len() == 0 {
        0
    } else if first_in_bucket(v.drop_last(), b) < v.len() - 1 {
        first_in_bucket(v.drop_last(), b)
    } else if v.last().bucket == b {
        v.len() - 1
    } else {
        v.len() as int
    }
}

/// Every idle buffer is filed under the bucket that its capacity serves.
pub open spec fn filed<T>(v: Seq<Idle<T>>) -> bool {
    forall|i: int|
        #![trigger v[i]]
        0 <= i < v.len() ==> is_bucket_down(v[i].len as int, v[i].bucket as int) && v[i].bucket > 0
}

/// `v` with entry `i` replaced by the last one.
pub open spec fn swap_removed<T>(v: Seq<T>, i: int) -> Seq<T> {
    v.update(i, v.last()).drop_last()
}

proof fn lemma_first_in_bucket<T>(v: Seq<Idle<T>>, b: int, k: int)
    requires
        0 <= k <= v.len(),
        k < v.len() ==> v[k].bucket == b,
        forall|i: int| 0 <= i < k ==> (#[trigger] v[i]).bucket != b,
    ensures
        first_in_bucket(v, b) == k,
    decreases v.len(),
{
    if v.len() > 0 {
        let t = v.drop_last();
        if k < v.len() {
            assert forall|i: int| 0 <= i < k implies (#[trigger] t[i]).bucket != b by {
                assert(v[i].bucket != b);
            }
            lemma_first_in_bucket(t, b, k);
        } else {
            assert forall|i: int| 0 <= i < t.len() implies (#[trigger] t[i]).bucket != b by {
                assert(v[i].bucket != b);
            }
            lemma_first_in_bucket(t, b, t.len() as int);
            assert(v[v.len() - 1].bucket != b);
        }
    }
}

proof fn lemma_idle_swap_remove<T>(v: Seq<Idle<T>>, i: int)
    requires
        0 <= i < v.len(),
    ensures
        idle_elems(swap_removed(v, i)) == idle_elems(v) - v[i].len,
{
    lemma_idle_update(v, i, v.last());
    let u = v.update(i, v.last());
    assert(u.last() == v.last());
}

proof fn lemma_idle_update<T>(v: Seq<Idle<T>>, i: int, x: Idle<T>)
    requires
        0 <= i < v.len(),
    ensures
        idle_elems(v.update(i, x)) == idle_elems(v) - v[i].len + x.len,
    decreases v.len(),
{
    let u = v.update(i, x);
    if i == v.len() - 1 {
        assert(u.drop_last() =~= v.drop_last());
    } else {
        lemma_idle_update(v.drop_last(), i, x);
        assert(u.drop_last() =~= v.drop_last().update(i, x));
    }
}

proof fn lemma_idle_bound<T>(v: Seq<Idle<T>>, i: int)
    requires
        0 <= i < v.len(),
    ensures
        0 <= v[i].len <= idle_elems(v),
        idle_elems(v) >= 0,
    decreases v.len(),
{
    lemma_idle_nonneg(v.drop_last());
    if i < v.len() - 1 {
        lemma_idle_bound(v.drop_last(), i);
    }
}

proof fn lemma_idle_nonneg<T>(v: Seq<Idle<T>>)
    ensures
        idle_elems(v) >= 0,
    decreases v.len(),
{
    if v.len() > 0 {
        lemma_idle_nonneg(v.drop_last());
    }
}

/// Idle buffers of two element widths: four bytes (`S`) and two bytes (`B`).
pub struct Pool<S, B> {
    pub free: Vec<Idle<S>>,
    pub free_bf16: Vec<Idle<B>>,
    pub cached_bytes: usize,
    pub cap_bytes: usize,
}

/// Takes the first idle buffer of bucket `b`.
fn take_from<T>(v: &mut Vec<Idle<T>>, b: usize) -> (r: Option<Idle<T>>)
    ensures
        match r {
            Some(x) => {
                &&& first_in_bucket(old(v)@, b as int) < old(v)@.len()
                &&& x == old(v)@[first_in_bucket(old(v)@, b as int)]
                &&& x.bucket == b
                &&& final(v)@ == swap_removed(old(v)@, first_in_bucket(old(v)@, b as int))
                &&& 0 <= first_in_bucket(old(v)@, b as int)
            },
            None => first_in_bucket(old(v)@, b as int) == old(v)@.len() && final(v)@ == old(v)@,
        },
{
    let mut i: usize = 0;
    while i < v.len() && v[i].bucket != b
        invariant
            v@ == old(v)@,
            i <= v.len(),
            forall|k: int| 0 <= k < i ==> (#[trigger] v@[k]).bucket != b,
        decreases v.len() - i,
    {
        i = i + 1;
    }
    proof {
        lemma_first_in_bucket(v@, b as int, i as int);
    }
    if i < v.len() {
        Some(v.swap_remove(i))
    } else {
        None
    }
}

impl<S, B> Pool<S, B> {
    /// The byte count is the sum over the idle buffers, and each is filed by its true capacity.
    pub open spec fn wf(&self) -> bool {
        &&& self.cached_bytes == 4 * idle_elems(self.free@) + 2 * idle_elems(self.free_bf16@)
        &&& filed(self.free@)
        &&& filed(self.free_bf16@)
    }

    /// An empty pool.
    pub fn new() -> (p: Self)
        ensures
            p.wf(),
            p.free@.len() == 0,
            p.free_bf16@.len() == 0,
            p.cached_bytes == 0,
            p.cap_bytes == POOL_CAP_BYTES,
    {
        Pool {
            free: Vec::new(),
            free_bf16: Vec::new(),
            cached_bytes: 0,
            cap_bytes: POOL_CAP_BYTES,
        }
    }

    /// Asks for `n` four-byte elements.
    pub fn get(&mut self, n: usize) -> (r: Acquire<S>)
        requires
            old(self).wf(),
            n <= usize::MAX / 2 + 1,
        ensures
            final(self).wf(),
            final(self).free_bf16@ == old(self).free_bf16@,
            final(self).cap_bytes == old(self).cap_bytes,
            exists|b: int|
                #![trigger is_bucket_up(n as int, b)]
                is_bucket_up(n as int, b) && {
                    let i = first_in_bucket(old(self).free@, b);
                    match r {
                        Acquire::Reuse(buf, len) => {
                            &&& 0 <= i < old(self).free@.len()
                            &&& buf == old(self).free@[i].buf
                            &&& len == old(self).free@[i].len
                            &&& len >= n
                            &&& final(self).free@ == swap_removed(old(self).free@, i)
                        },
                        Acquire::Allocate(m) => {
                            &&& i == old(self).free@.len()
                            &&& m == b
                            &&& final(self).free@ == old(self).free@
                        },
                    }
                },
    {
        let b: usize = bucket_up(n);
        let ghost v0 = self.free@;
        proof {
            assert(is_bucket_up(n as int, b as int));
        }
        match take_from(&mut self.free, b) {
            Some(x) => {
                proof {
                    let i = first_in_bucket(v0, b as int);
                    lemma_idle_swap_remove(v0, i);
                    lemma_idle_bound(v0, i);
                    lemma_idle_nonneg(self.free_bf16@);
                    law_filed_buffer_is_big_enough(n as int, x.len as int, b as int);
                    lemma_filed_swap(v0, i);
                }
                self.cached_bytes = self.cached_bytes - x.len * 4;
                Acquire::Reuse(x.buf, x.len)
            },
            None => Acquire::Allocate(b),
        }
    }

    /// Asks for `n` two-byte elements.
    pub fn get_bf16(&mut self, n: usize) -> (r: Acquire<B>)
        requires
            old(self).wf(),
            n <= usize::MAX / 2 + 1,
        ensures
            final(self).wf(),
            final(self).free@ == old(self).free@,
            final(self).cap_bytes == old(self).cap_bytes,
            exists|b: int|
                #![trigger is_bucket_up(n as int, b)]
                is_bucket_up(n as int, b) && {
                    let i = first_in_bucket(old(self).free_bf16@, b);
                    match r {
                        Acquire::Reuse(buf, len) => {
                            &&& 0 <= i < old(self).free_bf16@.len()
                            &&& buf == old(self).free_bf16@[i].buf
                            &&& len == old(self).free_bf16@[i].len
                            &&& len >= n
                            &&& final(self).free_bf16@ == swap_removed(old(self).free_bf16@, i)
                        },
                        Acquire::Allocate(m) => {
                            &&& i == old(self).free_bf16@.len()
                            &&& m == b
                            &&& final(self).free_bf16@ == old(self).free_bf16@
                        },
                    }
                },
    {
        let b: usize = bucket_up(n);
        let ghost v0 = self.free_bf16@;
        proof {
            assert(is_bucket_up(n as int, b as int));
        }
        match take_from(&mut self.free_bf16, b) {
            Some(x) => {
                proof {
                    let i = first_in_bucket(v0, b as int);
                    lemma_idle_swap_remove(v0, i);
                    lemma_idle_bound(v0, i);
                    lemma_idle_nonneg(self.free@);
                    law_filed_buffer_is_big_enough(n as int, x.len as int, b as int);
                    lemma_filed_swap(v0, i);
                }
                self.cached_bytes = self.cached_bytes - x.len * 2;
                Acquire::Reuse(x.buf, x.len)
            },
            None => Acquire::Allocate(b),
        }
    }

    /// Gives back a four-byte buffer of true capacity `len`. Always kept, never freed: queued kernels
    /// may still read it. One too small to serve any bucket is handed back to the caller.
    pub fn release(&mut self, buf: S, len: usize) -> (small: Option<S>)
        requires
            old(self).wf(),
            old(self).cached_bytes + len * 4 <= usize::MAX,
        ensures
            final(self).wf(),
            final(self).free_bf16@ == old(self).free_bf16@,
            final(self).cap_bytes == old(self).cap_bytes,
            len < MIN_BUCKET ==> small == Some(buf) && final(self).free@ == old(self).free@,
            len >= MIN_BUCKET ==> {
                &&& small is None
                &&& final(self).free@.len() == old(self).free@.len() + 1
                &&& final(self).free@.drop_last() == old(self).free@
                &&& final(self).free@.last().buf == buf
                &&& final(self).free@.last().len == len
                &&& is_bucket_down(len as int, final(self).free@.last().bucket as int)
            },
    {
        let b: usize = bucket_down(len);
        if b == 0 {
            return Some(buf);
        }
        self.cached_bytes = self.cached_bytes + len * 4;
        let ghost v0 = self.free@;
        self.free.push(Idle { buf, len, bucket: b });
        proof {
            assert(self.free@.drop_last() =~= v0);
        }
        None
    }

    /// Gives back a two-byte buffer of true capacity `len`.
    pub fn release_bf16(&mut self, buf: B, len: usize) -> (small: Option<B>)
        requires
            old(self).wf(),
            old(self).cached_bytes + len * 2 <= usize::MAX,
        ensures
            final(self).wf(),
            final(self).free@ == old(self).free@,
            final(self).cap_bytes == old(self).cap_bytes,
            len < MIN_BUCKET ==> small == Some(buf) && final(self).free_bf16@ == old(
                self,
            ).free_bf16@,
            len >= MIN_BUCKET ==> {
                &&& small is None
                &&& final(self).free_bf16@.len() == old(self).free_bf16@.len() + 1
                &&& final(self).free_bf16@.drop_last() == old(self).free_bf16@
                &&& final(self).free_bf16@.last().buf == buf
                &&& final(self).free_bf16@.last().len == len
                &&& is_bucket_down(len as int, final(self).free_bf16@.last().bucket as int)
            },
    {
        let b: usize = bucket_down(len);
        if b == 0 {
            return Some(buf);
        }
        self.cached_bytes = self.cached_bytes + len * 2;
        let ghost v0 = self.free_bf16@;
        self.free_bf16.push(Idle { buf, len, bucket: b });
        proof {
            assert(self.free_bf16@.drop_last() =~= v0);
        }
        None
    }

    /// Bytes currently idle.
    pub fn cached_bytes(&self) -> (n: usize)
        ensures
            n == self.cached_bytes,
    {
        self.cached_bytes
    }

    /// Surrenders every idle buffer (the device is out of memory) and says how many bytes that was.
    pub fn surrender(&mut self) -> (r: (Vec<Idle<S>>, Vec<Idle<B>>, usize))
        requires
            old(self).wf(),
        ensures
            final(self).wf(),
            final(self).free@.len() == 0,
            final(self).free_bf16@.len() == 0,
            final(self).cached_bytes == 0,
            final(self).cap_bytes == old(self).cap_bytes,
            r.0@ == old(self).free@,
            r.1@ == old(self).free_bf16@,
            r.2 == old(self).cached_bytes,
    {
        let freed: usize = self.cached_bytes;
        let mut f: Vec<Idle<S>> = Vec::new();
        let mut g: Vec<Idle<B>> = Vec::new();
        std::mem::swap(&mut self.free, &mut f);
        std::mem::swap(&mut self.free_bf16, &mut g);
        self.cached_bytes = 0;
        (f, g, freed)
    }

    /// Frees idle buffers, the biggest first, until the cap is met. Returns what was freed, in order.
    ///
    /// The caller synchronizes with the device before it drops them: a kernel launched earlier may
    /// still be using one.
    pub fn trim(&mut self) -> (r: (Vec<Idle<S>>, Vec<Idle<B>>))
        requires
            old(self).wf(),
        ensures
            final(self).wf(),
            final(self).cap_bytes == old(self).cap_bytes,
            old(self).cached_bytes <= old(self).cap_bytes ==> {
                &&& final(self).free@ == old(self).free@
                &&& final(self).free_bf16@ == old(self).free_bf16@
                &&& final(self).cached_bytes == old(self).cached_bytes
                &&& r.0@.len() == 0
                &&& r.1@.len() == 0
            },
            old(self).cached_bytes > old(self).cap_bytes ==> {
                let f = by_len(old(self).free@);
                let g = by_len(old(self).free_bf16@);
                let kept = kept_after_trim(
                    f,
                    g,
                    old(self).cached_bytes as int,
                    old(self).cap_bytes as int,
                );
                &&& final(self).free@ == f.take(kept.0)
                &&& final(self).free_bf16@ == g.take(kept.1)
                &&& r.0@ == f.skip(kept.0).reverse()
                &&& r.1@ == g.skip(kept.1).reverse()
            },
            final(self).cached_bytes <= final(self).cap_bytes || (final(self).free@.len() == 0
                && final(self).free_bf16@.len() == 0),
    {
        let mut out: Vec<Idle<S>> = Vec::new();
        let mut out16: Vec<Idle<B>> = Vec::new();
        if self.cached_bytes <= self.cap_bytes {
            return (out, out16);
        }
        let ghost f = by_len(self.free@);
        let ghost g = by_len(self.free_bf16@);
        let ghost kept = kept_after_trim(f, g, self.cached_bytes as int, self.cap_bytes as int);
        proof {
            lemma_by_len(self.free@);
            lemma_by_len(self.free_bf16@);
        }
        sort_by_len(&mut self.free);
        sort_by_len(&mut self.free_bf16);
        proof {
            assert(f.take(f.len() as int) =~= f);
            assert(g.take(g.len() as int) =~= g);
            assert(f.skip(f.len() as int).reverse() =~= Seq::<Idle<S>>::empty());
            assert(g.skip(g.len() as int).reverse() =~= Seq::<Idle<B>>::empty());
        }
        while self.cached_bytes > self.cap_bytes
            invariant_except_break
                self.wf(),
                self.cap_bytes == old(self).cap_bytes,
                self.free@.len() <= f.len(),
                self.free_bf16@.len() <= g.len(),
                self.free@ == f.take(self.free@.len() as int),
                self.free_bf16@ == g.take(self.free_bf16@.len() as int),
                out@ == f.skip(self.free@.len() as int).reverse(),
                out16@ == g.skip(self.free_bf16@.len() as int).reverse(),
                kept == kept_after_trim(
                    self.free@,
                    self.free_bf16@,
                    self.cached_bytes as int,
                    self.cap_bytes as int,
                ),
            ensures
                self.wf(),
                self.cap_bytes == old(self).cap_bytes,
                kept == (self.free@.len() as int, self.free_bf16@.len() as int),
                self.free@ == f.take(kept.0),
                self.free_bf16@ == g.take(kept.1),
                out@ == f.skip(kept.0).reverse(),
                out16@ == g.skip(kept.1).reverse(),
                self.cached_bytes <= self.cap_bytes || (self.free@.len() == 0
                    && self.free_bf16@.len() == 0),
            decreases self.free@.len() + self.free_bf16@.len(),
        {
            let nf: usize = self.free.len();
            let ng: usize = self.free_bf16.len();
            if nf == 0 && ng == 0 {
                break;
            }
            proof {
                if nf > 0 {
                    lemma_idle_bound(self.free@, nf - 1);
                    lemma_idle_nonneg(self.free_bf16@);
                }
                if ng > 0 {
                    lemma_idle_bound(self.free_bf16@, ng - 1);
                    lemma_idle_nonneg(self.free@);
                }
            }
            let big: usize = if nf > 0 {
                self.free[nf - 1].len * 4
            } else {
                0
            };
            let big16: usize = if ng > 0 {
                self.free_bf16[ng - 1].len * 2
            } else {
                0
            };
            if big >= big16 {
                let ghost v0 = self.free@;
                proof {
                    if nf == 0 {
                        assert(self.free_bf16@[ng - 1].bucket > 0);
                    }
                    assert(nf > 0);
                    assert(v0.drop_last() =~= f.take(nf - 1));
                    assert(f.skip(nf - 1).reverse() =~= f.skip(nf as int).reverse().push(f[nf - 1]));
                    assert(v0.last() == f[nf - 1]);
                }
                match self.free.pop() {
                    Some(x) => {
                        self.cached_bytes = self.cached_bytes - big;
                        out.push(x);
                    },
                    None => {},
                }
                proof {
                    assert(filed(self.free@));
                }
            } else {
                let ghost v0 = self.free_bf16@;
                proof {
                    assert(ng > 0);
                    assert(v0.drop_last() =~= g.take(ng - 1));
                    assert(g.skip(ng - 1).reverse() =~= g.skip(ng as int).reverse().push(g[ng - 1]));
                    assert(v0.last() == g[ng - 1]);
                }
                match self.free_bf16.pop() {
                    Some(x) => {
                        self.cached_bytes = self.cached_bytes - big16;
                        out16.push(x);
                    },
                    None => {},
                }
                proof {
                    assert(filed(self.free_bf16@));
                }
            }
        }
        (out, out16)
    }
}

proof fn lemma_filed_swap<T>(v: Seq<Idle<T>>, i: int)
    requires
        filed(v),
        0 <= i < v.len(),
    ensures
        filed(swap_removed(v, i)),
{
    let u = swap_removed(v, i);
    assert forall|k: int| #![trigger u[k]] 0 <= k < u.len() implies is_bucket_down(
        u[k].len as int,
        u[k].bucket as int,
    ) && u[k].bucket > 0 by {
        if k == i {
            assert(u[k] == v[v.len() - 1]);
        } else {
            assert(u[k] == v[k]);
        }
    }
}

/// How many buffers of each list stay: the bigger of the two last ones goes, in bytes, until the cap
/// is met or nothing is left.
pub open spec fn kept_after_trim<S, B>(
    f: Seq<Idle<S>>,
    g: Seq<Idle<B>>,
    cached: int,
    cap: int,
) -> (int, int)
    decreases f.len() + g.len(),
{
    if cached <= cap || (f.len() == 0 && g.len() == 0) {
        (f.len() as int, g.len() as int)
    } else {
        let big = if f.len() > 0 {
            f.last().len * 4
        } else {
            0
        };
        let big16 = if g.len() > 0 {
            g.last().len * 2
        } else {
            0
        };
        if f.len() > 0 && big >= big16 {
            kept_after_trim(f.drop_last(), g, cached - big, cap)
        } else {
            kept_after_trim(f, g.drop_last(), cached - big16, cap)
        }
    }
}

/// `x` put into the sorted `v` after everything not longer than it.
pub open spec fn placed<T>(v: Seq<Idle<T>>, x: Idle<T>) -> Seq<Idle<T>>
    decreases v.len(),
{
    if v.len() == 0 || v.last().len <= x.len {
        v.push(x)
    } else {
        placed(v.drop_last(), x).push(v.last())
    }
}

/// `v` sorted by capacity, equal ones in their old order.
pub open spec fn by_len<T>(v: Seq<Idle<T>>) -> Seq<Idle<T>>
    decreases v.len(),
{
    if v.len() == 0 {
        v
    } else {
        placed(by_len(v.drop_last()), v.last())
    }
}

/// Capacities never fall along `v`.
pub open spec fn sorted_by_len<T>(v: Seq<Idle<T>>) -> bool {
    forall|i: int, j: int| 0 <= i <= j < v.len() ==> (#[trigger] v[i]).len <= (#[trigger] v[j]).len
}

proof fn lemma_placed<T>(v: Seq<Idle<T>>, x: Idle<T>)
    requires
        sorted_by_len(v),
    ensures
        sorted_by_len(placed(v, x)),
        placed(v, x).to_multiset() == v.to_multiset().insert(x),
        placed(v, x).len() == v.len() + 1,
        idle_elems(placed(v, x)) == idle_elems(v) + x.len,
        forall|i: int|
            0 <= i < placed(v, x).len() ==> (#[trigger] placed(v, x)[i]).len <= x.len || v.contains(
                placed(v, x)[i],
            ),
        filed(v) && is_bucket_down(x.len as int, x.bucket as int) && x.bucket > 0 ==> filed(
            placed(v, x),
        ),
    decreases v.len(),
{
    broadcast use vstd::seq_lib::group_to_multiset_ensures;

    if v.len() == 0 || v.last().len <= x.len {
        assert(v.push(x).drop_last() =~= v);
        assert forall|i: int, j: int| 0 <= i <= j < v.push(x).len() implies (#[trigger] v.push(
            x,
        )[i]).len <= (#[trigger] v.push(x)[j]).len by {
            if i < v.len() {
                assert(v[i].len <= v[v.len() - 1].len);
                if j < v.len() {
                    assert(v[i].len <= v[j].len);
                }
            }
        }
    } else {
        let t = v.drop_last();
        let p = placed(t, x);
        assert(sorted_by_len(t));
        lemma_placed(t, x);
        let q = p.push(v.last());
        assert(q.drop_last() =~= p);
        assert forall|i: int| 0 <= i < p.len() implies (#[trigger] p[i]).len <= v.last().len by {
            if p[i].len > x.len {
                assert(t.contains(p[i]));
                let k = choose|k: int| 0 <= k < t.len() && t[k] == p[i];
                assert(v[k].len <= v[v.len() - 1].len);
            }
        }
        assert forall|i: int, j: int| 0 <= i <= j < q.len() implies (#[trigger] q[i]).len
            <= (#[trigger] q[j]).len by {
            if i < p.len() {
                assert(p[i].len <= v.last().len);
                if j < p.len() {
                    assert(p[i].len <= p[j].len);
                }
            }
        }
        assert forall|i: int| 0 <= i < q.len() implies (#[trigger] q[i]).len <= x.len || v.contains(
            q[i],
        ) by {
            if i < p.len() {
                if t.contains(p[i]) {
                    let k = choose|k: int| 0 <= k < t.len() && t[k] == p[i];
                    assert(v[k] == p[i]);
                }
            } else {
                assert(v[v.len() - 1] == q[i]);
            }
        }
        assert(v =~= t.push(v.last()));
        assert(q.to_multiset() =~= v.to_multiset().insert(x));
        if filed(v) && is_bucket_down(x.len as int, x.bucket as int) && x.bucket > 0 {
            assert(filed(t)) by {
                assert forall|i: int| #![trigger t[i]] 0 <= i < t.len() implies is_bucket_down(
                    t[i].len as int,
                    t[i].bucket as int,
                ) && t[i].bucket > 0 by {
                    assert(v[i] == t[i]);
                }
            }
            assert forall|i: int| #![trigger q[i]] 0 <= i < q.len() implies is_bucket_down(
                q[i].len as int,
                q[i].bucket as int,
            ) && q[i].bucket > 0 by {
                if i < p.len() {
                    assert(q[i] == p[i]);
                } else {
                    assert(q[i] == v[v.len() - 1]);
                }
            }
        }
    }
}

proof fn lemma_by_len<T>(v: Seq<Idle<T>>)
    ensures
        sorted_by_len(by_len(v)),
        by_len(v).to_multiset() == v.to_multiset(),
        by_len(v).len() == v.len(),
        idle_elems(by_len(v)) == idle_elems(v),
        filed(v) ==> filed(by_len(v)),
    decreases v.len(),
{
    broadcast use vstd::seq_lib::group_to_multiset_ensures;

    if v.len() > 0 {
        let t = v.drop_last();
        lemma_by_len(t);
        lemma_placed(by_len(t), v.last());
        assert(v =~= t.push(v.last()));
        if filed(v) {
            assert forall|i: int| #![trigger t[i]] 0 <= i < t.len() implies is_bucket_down(
                t[i].len as int,
                t[i].bucket as int,
            ) && t[i].bucket > 0 by {
                assert(v[i] == t[i]);
            }
            assert(v[v.len() - 1] == v.last());
        }
    }
}

/// Sorting loses and invents nothing, and orders by capacity.
pub proof fn law_sorted_pool_is_a_permutation<T>(v: Seq<Idle<T>>)
    ensures
        sorted_by_len(by_len(v)),
        by_len(v).to_multiset() == v.to_multiset(),
{
    lemma_by_len(v);
}

proof fn lemma_placed_at<T>(v: Seq<Idle<T>>, x: Idle<T>, k: int)
    requires
        0 <= k <= v.len(),
        k > 0 ==> v[k - 1].len <= x.len,
        forall|i: int| k <= i < v.len() ==> (#[trigger] v[i]).len > x.len,
    ensures
        placed(v, x) == v.insert(k, x),
    decreases v.len(),
{
    if k == v.len() {
        assert(v.insert(k, x) =~= v.push(x));
    } else {
        assert(v[v.len() - 1].len > x.len);
        let t = v.drop_last();
        assert forall|i: int| k <= i < t.len() implies (#[trigger] t[i]).len > x.len by {
            assert(v[i].len > x.len);
        }
        lemma_placed_at(t, x, k);
        assert(v.insert(k, x) =~= t.insert(k, x).push(v.last()));
    }
}

/// Sorts by capacity, keeping equal ones in order.
fn sort_by_len<T>(v: &mut Vec<Idle<T>>)
    ensures
        final(v)@ == by_len(old(v)@),
{
    let ghost v0 = v@;
    let n: usize = v.len();
    let mut rest: Vec<Idle<T>> = Vec::new();
    std::mem::swap(v, &mut rest);
    let mut done: usize = 0;
    proof {
        assert(v0.take(0) =~= v@);
        assert(v0.skip(0) =~= rest@);
    }
    while done < n
        invariant
            n == v0.len(),
            done <= n,
            v@ == by_len(v0.take(done as int)),
            rest@ == v0.skip(done as int),
        decreases n - done,
    {
        let x: Idle<T> = rest.remove(0);
        proof {
            assert(x == v0[done as int]);
            assert(rest@ =~= v0.skip(done + 1));
            assert(v0.take(done + 1).drop_last() =~= v0.take(done as int));
            assert(v0.take(done + 1).last() == x);
        }
        let mut k: usize = v.len();
        while k > 0 && v[k - 1].len > x.len
            invariant
                k <= v.len(),
                forall|i: int| k <= i < v.len() ==> (#[trigger] v@[i]).len > x.len,
            decreases k,
        {
            k = k - 1;
        }
        proof {
            lemma_placed_at(v@, x, k as int);
        }
        v.insert(k, x);
        done = done + 1;
    }
    proof {
        assert(v0.take(n as int) =~= v0);
    }
}

} // verus!
