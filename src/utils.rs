//! Small helpers: plain text from HTML, a xorshift generator, and the delays
//! of a bounded retry with exponential backoff.
use vstd::arithmetic::power2::pow2;
use vstd::prelude::*;

verus! {

/// The characters of `s` outside tags: from a `<` up to the next `>` is a
/// tag, and a `<` that is never closed hides the rest.
pub open spec fn strip_tags(s: Seq<char>, in_tag: bool) -> Seq<char>
    decreases s.len(),
{
    if s.len() == 0 {
        seq![]
    } else if s[0] == '<' {
        strip_tags(s.drop_first(), true)
    } else if s[0] == '>' {
        strip_tags(s.drop_first(), false)
    } else if in_tag {
        strip_tags(s.drop_first(), true)
    } else {
        seq![s[0]] + strip_tags(s.drop_first(), false)
    }
}

/// Relies on `String::push`: it appends one character.
#[verifier::external_body]
fn push_char(s: &mut String, c: char)
    ensures
        final(s)@ == old(s)@.push(c),
{
    s.push(c)
}

/// Plain text from HTML: the characters outside tags.
pub fn extract_plain_str_from_html(html: &str) -> (r: String)
    ensures
        r@ == strip_tags(html@, false),
{
    let mut is_tag = false;
    let mut result = String::new();
    let n = html.unicode_len();
    let mut i: usize = 0;
    assert(html@.subrange(0, n as int) =~= html@);
    assert(result@ + strip_tags(html@, false) =~= strip_tags(html@, false));
    while i < n
        invariant
            n == html@.len(),
            0 <= i <= n,
            result@ + strip_tags(html@.subrange(i as int, n as int), is_tag) == strip_tags(
                html@,
                false,
            ),
        decreases n - i,
    {
        let c = html.get_char(i);
        let ghost rest = html@.subrange(i as int, n as int);
        assert(rest.drop_first() =~= html@.subrange(i + 1, n as int));
        if c == '<' {
            is_tag = true;
        } else if c == '>' {
            is_tag = false;
        } else if !is_tag {
            let ghost before = result@;
            push_char(&mut result, c);
            assert(result@ + strip_tags(rest.drop_first(), false) =~= before + strip_tags(
                rest,
                false,
            ));
        }
        i = i + 1;
    }
    assert(html@.subrange(n as int, n as int) =~= Seq::<char>::empty());
    assert(result@ + Seq::<char>::empty() =~= result@);
    result
}

pub const KX: u32 = 123456789;

pub const KY: u32 = 362436069;

pub const KZ: u32 = 521288629;

pub const KW: u32 = 88675123;

/// A xorshift128 generator of pseudo-random numbers.
pub struct Rand {
    x: u32,
    y: u32,
    z: u32,
    w: u32,
}

/// The state after one step of xorshift128, and the number it yields (`.3`).
pub open spec fn xorshift_step(x: u32, y: u32, z: u32, w: u32) -> (u32, u32, u32, u32) {
    let t = x ^ (x << 11u32);
    (y, z, w, w ^ (w >> 19u32) ^ t ^ (t >> 8u32))
}

impl View for Rand {
    type V = (u32, u32, u32, u32);

    closed spec fn view(&self) -> (u32, u32, u32, u32) {
        (self.x, self.y, self.z, self.w)
    }
}

impl Rand {
    pub fn new(seed: u32) -> (r: Rand)
        ensures
            r@ == (KX ^ seed, KY ^ seed, KZ, KW),
    {
        Rand { x: KX ^ seed, y: KY ^ seed, z: KZ, w: KW }
    }

    pub fn rand(&mut self) -> (r: u32)
        ensures
            ({
                let (x, y, z, w) = old(self)@;
                let next = xorshift_step(x, y, z, w);
                final(self)@ == next && r == next.3
            }),
    {
        let t = self.x ^ (self.x << 11u32);
        self.x = self.y;
        self.y = self.z;
        self.z = self.w;
        self.w = self.w ^ (self.w >> 19u32) ^ t ^ (t >> 8u32);
        self.w
    }

    /// A number in `a..=b`.
    pub fn rand_range(&mut self, a: i32, b: i32) -> (r: i32)
        requires
            a <= b,
            b - a + 1 <= i32::MAX,
        ensures
            ({
                let (x, y, z, w) = old(self)@;
                let next = xorshift_step(x, y, z, w);
                &&& final(self)@ == next
                &&& r == a + next.3 as int % (b - a + 1)
                &&& a <= r <= b
            }),
    {
        let m = (b - a + 1) as u32;
        a + (self.rand() % m) as i32
    }
}

/// The wait before retry number `attempts` (counted from 1): `base_ms`
/// doubled `attempts` times, or `None` once `max_attempts` have been made.
pub open spec fn backoff(attempts: u32, max_attempts: u32, base_ms: u64) -> Option<u64> {
    if attempts >= max_attempts {
        None
    } else {
        Some((base_ms * pow2(attempts as nat)) as u64)
    }
}

pub fn next_backoff(attempts: u32, max_attempts: u32, base_ms: u64) -> (r: Option<u64>)
    requires
        base_ms * pow2(max_attempts as nat) <= u64::MAX,
    ensures
        r == backoff(attempts, max_attempts, base_ms),
{
    if attempts >= max_attempts {
        return None;
    }
    let mut delay = base_ms;
    let mut i: u32 = 0;
    proof {
        vstd::arithmetic::power2::lemma2_to64();
    }
    while i < attempts
        invariant
            i <= attempts < max_attempts,
            delay == base_ms * pow2(i as nat),
            base_ms * pow2(max_attempts as nat) <= u64::MAX,
        decreases attempts - i,
    {
        proof {
            let p = pow2(i as nat);
            let q = pow2((i + 1) as nat);
            let pm = pow2(max_attempts as nat);
            vstd::arithmetic::power2::lemma_pow2_unfold((i + 1) as nat);
            vstd::arithmetic::power2::lemma_pow2_strictly_increases((i + 1) as nat, max_attempts as nat);
            assert(base_ms * q <= base_ms * pm) by (nonlinear_arith)
                requires
                    q < pm,
                    base_ms >= 0,
            ;
            assert(delay * 2 == base_ms * q) by (nonlinear_arith)
                requires
                    delay == base_ms * p,
                    q == 2 * p,
            ;
        }
        delay = delay * 2;
        i = i + 1;
    }
    Some(delay)
}

} // verus!
