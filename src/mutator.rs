use vstd::prelude::*;

use crate::coverage::copy_bytes;

verus! {

/// Inputs never grow past this length through insertion.
pub const MAX_INPUT_LEN: usize = 4096;

/// Number of distinct havoc transforms.
pub const HAVOC_OPS: u64 = 5;

/// Largest number of transforms stacked onto one child.
pub const MAX_STACK: u64 = 8;

/// One xorshift64 step.
pub open spec fn rand_step(x: u64) -> u64 {
    let a = x ^ (x << 13u64);
    let b = a ^ (a >> 7u64);
    b ^ (b << 17u64)
}

/// The generator state a seed starts from; zero would be a fixed point.
pub open spec fn seed_state(seed: u64) -> u64 {
    if seed == 0 {
        0x9E37_79B9_7F4A_7C15u64
    } else {
        seed
    }
}

/// One havoc transform chosen and parameterised by the random word `r`:
/// overwrite a byte, add to a byte, invert a byte, insert a byte, delete a byte.
pub open spec fn apply_op(s: Seq<u8>, r: u64) -> Seq<u8> {
    let op = r % (HAVOC_OPS as u64);
    let pos = (r / 256) as int;
    let val = ((r / 0x1_0000_0000) % 256) as u8;
    let n = s.len() as int;
    if op == 3 {
        if n >= MAX_INPUT_LEN {
            s
        } else {
            s.insert(pos % (n + 1), val)
        }
    } else if n == 0 {
        s
    } else if op == 0 {
        s.update(pos % n, val)
    } else if op == 1 {
        s.update(pos % n, ((s[pos % n] + val) % 256) as u8)
    } else if op == 2 {
        s.update(pos % n, (255 - s[pos % n]) as u8)
    } else {
        s.remove(pos % n)
    }
}

/// `steps` stacked transforms, each drawing a fresh random word.
pub open spec fn havoc_from(s: Seq<u8>, state: u64, steps: nat) -> Seq<u8>
    decreases steps,
{
    if steps == 0 {
        s
    } else {
        let r = rand_step(state);
        havoc_from(apply_op(s, r), r, (steps - 1) as nat)
    }
}

/// The child that `mutate` derives from `parent` under `seed`.
pub open spec fn mutate_spec(parent: Seq<u8>, seed: u64) -> Seq<u8> {
    let r0 = rand_step(seed_state(seed));
    havoc_from(parent, r0, (1 + r0 % MAX_STACK) as nat)
}

/// Bytes of `s` from `off` on replaced by `v`, clipped to the length of `s`.
pub open spec fn spliced(s: Seq<u8>, off: int, v: Seq<u8>) -> Seq<u8> {
    Seq::new(s.len(), |i: int| if off <= i < off + v.len() { v[i - off] } else { s[i] })
}

/// Advances the xorshift64 generator.
pub fn next_rand(x: u64) -> (r: u64)
    ensures
        r == rand_step(x),
{
    let a = x ^ (x << 13u64);
    let b = a ^ (a >> 7u64);
    b ^ (b << 17u64)
}

/// Applies the havoc transform selected by `r` in place.
pub fn apply_havoc(v: &mut Vec<u8>, r: u64)
    ensures
        final(v)@ == apply_op(old(v)@, r),
{
    let op = r % HAVOC_OPS;
    let pos = r / 256;
    let val = ((r / 0x1_0000_0000) % 256) as u8;
    let n = v.len();
    if op == 3 {
        if n < MAX_INPUT_LEN {
            let p = (pos % (n as u64 + 1)) as usize;
            v.insert(p, val);
        }
    } else if n > 0 {
        let p = (pos % (n as u64)) as usize;
        if op == 0 {
            v.set(p, val);
        } else if op == 1 {
            let x = v[p];
            v.set(p, ((x as u64 + val as u64) % 256) as u8);
        } else if op == 2 {
            let x = v[p];
            v.set(p, 255 - x);
        } else {
            v.remove(p);
        }
    }
}

/// Derives a child from `parent` by a stack of havoc transforms; the same
/// parent and seed always give the same child.
pub fn mutate(parent: &Vec<u8>, seed: u64) -> (r: Vec<u8>)
    ensures
        r@ == mutate_spec(parent@, seed),
{
    let s0 = if seed == 0 { 0x9E37_79B9_7F4A_7C15u64 } else { seed };
    let r0 = next_rand(s0);
    let steps = 1 + r0 % MAX_STACK;
    let mut child = copy_bytes(parent);
    let mut state = r0;
    let mut i: u64 = 0;
    while i < steps
        invariant
            i <= steps,
            steps == 1 + r0 % MAX_STACK,
            r0 == rand_step(seed_state(seed)),
            havoc_from(child@, state, (steps - i) as nat) == mutate_spec(parent@, seed),
        decreases steps - i,
    {
        let r = next_rand(state);
        apply_havoc(&mut child, r);
        state = r;
        i = i + 1;
    }
    child
}

/// Overwrites the bytes of `input` from `offset` on with `value`, as far as
/// the input reaches.
pub fn splice_operand(input: &Vec<u8>, offset: usize, value: &Vec<u8>) -> (r: Vec<u8>)
    ensures
        r@ == spliced(input@, offset as int, value@),
{
    let mut r = copy_bytes(input);
    let mut k: usize = 0;
    while k < value.len() && offset < input.len() && k < input.len() - offset
        invariant
            r@.len() == input@.len(),
            k <= value@.len(),
            forall|i: int|
                0 <= i < input@.len() ==> #[trigger] r@[i] == if offset <= i < offset + k {
                    value@[i - offset]
                } else {
                    input@[i]
                },
        decreases value@.len() - k,
    {
        r.set(offset + k, value[k]);
        k = k + 1;
    }
    assert(r@ =~= spliced(input@, offset as int, value@));
    r
}

/// A comparison observed by the tracing pass: the operand found at `offset`
/// in the input was compared against `value`.
pub struct CmpRecord {
    pub offset: usize,
    pub value: Vec<u8>,
}

/// Input-to-state mutation: writes the counterpart operand of the comparison
/// chosen by `r` over the bytes it was compared from. Without recorded
/// comparisons the input is returned unchanged.
pub fn input_to_state(input: &Vec<u8>, cmps: &Vec<CmpRecord>, r: u64) -> (res: Vec<u8>)
    ensures
        cmps@.len() == 0 ==> res@ == input@,
        cmps@.len() > 0 ==> ({
            let c = cmps@[(r % (cmps@.len() as u64)) as int];
            res@ == spliced(input@, c.offset as int, c.value@)
        }),
{
    if cmps.len() == 0 {
        return copy_bytes(input);
    }
    let c = &cmps[(r % (cmps.len() as u64)) as usize];
    splice_operand(input, c.offset, &c.value)
}

/// The weighted coin deciding whether an input gets the comparison-tracing
/// pass: true for `percent` of the values of `r` modulo 100.
pub fn should_trace(r: u64, percent: u64) -> (b: bool)
    ensures
        b == (r % 100 < percent),
{
    r % 100 < percent
}

/// Mutation is reproducible: equal parents and seeds give equal children.
pub proof fn lemma_mutate_deterministic(p: Seq<u8>, q: Seq<u8>, seed: u64, other: u64)
    requires
        p == q,
        seed == other,
    ensures
        mutate_spec(p, seed) == mutate_spec(q, other),
{
}

} // verus!
