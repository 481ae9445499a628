use vstd::prelude::*;
use vstd::string::StrSliceExecFns;

verus! {

/// Longest verkey accepted: `~`, 44 digits and the `:ed25519` suffix.
pub const MAX_VERKEY_CHARS: usize = 53;

/// A digit of the base58 alphabet (no `0`, `O`, `I` or `l`).
pub open spec fn is_base58_char(c: char) -> bool {
    ('1' <= c && c <= '9') || ('A' <= c && c <= 'H') || ('J' <= c && c <= 'N')
        || ('P' <= c && c <= 'Z') || ('a' <= c && c <= 'k') || ('m' <= c && c <= 'z')
}

/// The value of a base58 digit: its place in the alphabet.
pub open spec fn digit_value(c: char) -> int {
    if c <= '9' {
        c as int - '1' as int
    } else if c <= 'H' {
        c as int - 'A' as int + 9
    } else if c <= 'N' {
        c as int - 'J' as int + 17
    } else if c <= 'Z' {
        c as int - 'P' as int + 22
    } else if c <= 'k' {
        c as int - 'a' as int + 33
    } else {
        c as int - 'm' as int + 44
    }
}

/// The number that base58 digits `s` stand for, most significant first.
pub open spec fn b58_value(s: Seq<char>) -> int
    decreases s.len(),
{
    if s.len() == 0 {
        0
    } else {
        b58_value(s.drop_last()) * 58 + digit_value(s.last())
    }
}

/// How many `1` digits (each a zero byte) open `s`.
pub open spec fn leading_ones(s: Seq<char>) -> nat
    decreases s.len(),
{
    if s.len() > 0 && s[0] == '1' {
        1 + leading_ones(s.drop_first())
    } else {
        0
    }
}

/// The number of bytes in the shortest big-endian encoding of `v`.
pub open spec fn byte_len(v: int) -> nat
    decreases v,
{
    if v <= 0 {
        0
    } else {
        1 + byte_len(v / 256)
    }
}

/// The length of the byte string that base58 digits `s` decode to.
pub open spec fn decoded_len(s: Seq<char>) -> nat {
    leading_ones(s) + byte_len(b58_value(s))
}

/// The encoded key itself: base58 digits that decode to the 32 bytes of a
/// public key (which never take more than 44 digits).
pub open spec fn is_key_body(s: Seq<char>) -> bool {
    &&& s.len() <= 44
    &&& forall|i: int| 0 <= i < s.len() ==> is_base58_char(#[trigger] s[i])
    &&& decoded_len(s) == 32
}

/// 256 to the power `n`.
pub open spec fn pow256(n: nat) -> int
    decreases n,
{
    if n == 0 {
        1
    } else {
        256 * pow256((n - 1) as nat)
    }
}

/// The number that little-endian bytes `v` stand for.
pub open spec fn le_value(v: Seq<u8>) -> int
    decreases v.len(),
{
    if v.len() == 0 {
        0
    } else {
        le_value(v.drop_last()) + v.last() * pow256((v.len() - 1) as nat)
    }
}

proof fn lemma_pow256_pos(n: nat)
    ensures
        pow256(n) >= 1,
    decreases n,
{
    if n > 0 {
        lemma_pow256_pos((n - 1) as nat);
    }
}

proof fn lemma_le_value_bounds(v: Seq<u8>)
    ensures
        0 <= le_value(v) < pow256(v.len()),
        v.len() > 0 && v.last() != 0 ==> le_value(v) >= pow256((v.len() - 1) as nat),
    decreases v.len(),
{
    if v.len() > 0 {
        let n = (v.len() - 1) as nat;
        lemma_le_value_bounds(v.drop_last());
        lemma_pow256_pos(n);
        let p = pow256(n);
        let l = v.last() as int;
        assert(0 <= l * p <= 255 * p) by (nonlinear_arith)
            requires 0 <= l <= 255, p >= 1;
        assert(l != 0 ==> l * p >= p) by (nonlinear_arith)
            requires 0 <= l <= 255, p >= 1;
    }
}

proof fn lemma_byte_len(x: int, n: nat)
    requires
        n > 0,
        pow256((n - 1) as nat) <= x < pow256(n),
    ensures
        byte_len(x) == n,
    decreases n,
{
    lemma_pow256_pos((n - 1) as nat);
    if n == 1 {
        assert(x / 256 == 0);
        assert(byte_len(0) == 0);
    } else {
        lemma_byte_len(x / 256, (n - 1) as nat);
    }
}

/// `v` has no zero byte at its most significant end.
pub open spec fn is_trimmed(v: Seq<u8>) -> bool {
    v.len() == 0 || v.last() != 0
}

proof fn lemma_trimmed_byte_len(v: Seq<u8>)
    requires
        is_trimmed(v),
    ensures
        byte_len(le_value(v)) == v.len(),
{
    lemma_le_value_bounds(v);
    if v.len() > 0 {
        lemma_byte_len(le_value(v), v.len());
    }
}

/// Multiplies the little-endian number `limbs` by 58 and adds `d`.
fn mul58_add(limbs: &mut Vec<u8>, d: u8)
    requires
        d < 58,
    ensures
        le_value(final(limbs)@) == le_value(old(limbs)@) * 58 + d,
{
    let ghost old_v = limbs@;
    let mut carry: u32 = d as u32;
    let mut j: usize = 0;
    assert(limbs@.subrange(0, 0) =~= Seq::<u8>::empty());
    while j < limbs.len()
        invariant
            limbs.len() == old_v.len(),
            j <= limbs.len(),
            carry < 58,
            d < 58,
            forall|k: int| j <= k < limbs.len() ==> limbs@[k] == old_v[k],
            le_value(limbs@.subrange(0, j as int)) + carry * pow256(j as nat)
                == le_value(old_v.subrange(0, j as int)) * 58 + d,
        decreases limbs.len() - j,
    {
        let ghost pre = limbs@;
        let ghost c = carry as int;
        let x: u32 = limbs[j] as u32 * 58 + carry;
        limbs.set(j, (x % 256) as u8);
        carry = x / 256;
        proof {
            let p = pow256(j as nat);
            let o = old_v[j as int] as int;
            let xi = x as int;
            assert(pre[j as int] == old_v[j as int]);
            assert(xi == o * 58 + c);
            assert(limbs@.subrange(0, j + 1).drop_last() =~= pre.subrange(0, j as int));
            assert(old_v.subrange(0, j + 1).drop_last() =~= old_v.subrange(0, j as int));
            assert(limbs@.subrange(0, j + 1).last() == (x % 256) as u8);
            assert(old_v.subrange(0, j + 1).last() == old_v[j as int]);
            assert(pow256((j + 1) as nat) == 256 * p);
            assert(xi == (xi / 256) * 256 + xi % 256);
            assert(xi * p == (xi % 256) * p + (xi / 256) * (256 * p)) by (nonlinear_arith)
                requires xi == (xi / 256) * 256 + xi % 256;
            assert(xi * p == c * p + o * 58 * p) by (nonlinear_arith)
                requires xi == o * 58 + c;
            assert(carry as int == xi / 256);
            let big_l = le_value(pre.subrange(0, j as int));
            let big_o = le_value(old_v.subrange(0, j as int));
            assert(big_l + c * p == big_o * 58 + d);
            assert(le_value(limbs@.subrange(0, j + 1)) == big_l + (xi % 256) * p);
            assert(le_value(old_v.subrange(0, j + 1)) == big_o + o * p);
            assert((big_o + o * p) * 58 == big_o * 58 + o * 58 * p) by (nonlinear_arith);
            assert(carry * pow256((j + 1) as nat) == (xi / 256) * (256 * p));
        }
        j = j + 1;
    }
    assert(limbs@.subrange(0, j as int) =~= limbs@);
    assert(old_v.subrange(0, j as int) =~= old_v);
    if carry > 0 {
        let ghost pre = limbs@;
        limbs.push(carry as u8);
        assert(limbs@.drop_last() =~= pre);
    }
}

/// Drops zero bytes from the most significant end, keeping the value.
fn trim(limbs: &mut Vec<u8>)
    ensures
        le_value(final(limbs)@) == le_value(old(limbs)@),
        is_trimmed(final(limbs)@),
{
    while limbs.len() > 0 && limbs[limbs.len() - 1] == 0
        invariant
            le_value(limbs@) == le_value(old(limbs)@),
        decreases limbs.len(),
    {
        let ghost pre = limbs@;
        limbs.pop();
        assert(limbs@ =~= pre.drop_last());
    }
}

fn digit_of(c: char) -> (r: u8)
    requires
        is_base58_char(c),
    ensures
        r as int == digit_value(c),
        r < 58,
{
    if c <= '9' {
        (c as u32 - '1' as u32) as u8
    } else if c <= 'H' {
        (c as u32 - 'A' as u32 + 9) as u8
    } else if c <= 'N' {
        (c as u32 - 'J' as u32 + 17) as u8
    } else if c <= 'Z' {
        (c as u32 - 'P' as u32 + 22) as u8
    } else if c <= 'k' {
        (c as u32 - 'a' as u32 + 33) as u8
    } else {
        (c as u32 - 'm' as u32 + 44) as u8
    }
}

/// A key body, optionally marked with a leading `~`.
pub open spec fn is_key_part(s: Seq<char>) -> bool {
    is_key_body(s) || (s.len() > 0 && s[0] == '~' && is_key_body(s.drop_first()))
}

/// The crypto-type suffix of a fully qualified verkey.
pub open spec fn ed25519_suffix() -> Seq<char> {
    seq![':', 'e', 'd', '2', '5', '5', '1', '9']
}

/// A well-formed verkey: a key part, optionally followed by `:ed25519`.
pub open spec fn valid_verkey(s: Seq<char>) -> bool {
    is_key_part(s) || (s.len() >= 8 && s.subrange(s.len() - 8, s.len() as int)
        == ed25519_suffix() && is_key_part(s.subrange(0, s.len() - 8)))
}

fn base58_char(c: char) -> (r: bool)
    ensures
        r == is_base58_char(c),
{
    ('1' <= c && c <= '9') || ('A' <= c && c <= 'H') || ('J' <= c && c <= 'N')
        || ('P' <= c && c <= 'Z') || ('a' <= c && c <= 'k') || ('m' <= c && c <= 'z')
}

/// Whether the characters `start..end` of `s` form a key part.
fn check_key_part(s: &str, start: usize, end: usize) -> (r: bool)
    requires
        start <= end <= s@.len(),
    ensures
        r == is_key_part(s@.subrange(start as int, end as int)),
{
    let ghost part = s@.subrange(start as int, end as int);
    let mut from: usize = start;
    if start < end && s.get_char(start) == '~' {
        from = start + 1;
    }
    let ghost body = s@.subrange(from as int, end as int);
    proof {
        if from > start {
            assert(body =~= part.drop_first());
            assert(part[0] == s@[start as int]);
            assert(!is_base58_char(part[0]));
            assert(!is_key_body(part));
        } else {
            assert(body =~= part);
        }
        assert(is_key_part(part) == is_key_body(body));
    }
    if end - from > 44 {
        return false;
    }
    let mut i: usize = from;
    while i < end
        invariant
            from <= i <= end <= s@.len(),
            body == s@.subrange(from as int, end as int),
            part == s@.subrange(start as int, end as int),
            is_key_part(part) == is_key_body(body),
            end - from <= 44,
            forall|j: int| from <= j < i ==> is_base58_char(#[trigger] s@[j]),
        decreases end - i,
    {
        if !base58_char(s.get_char(i)) {
            assert(body[i - from] == s@[i as int]);
            assert(!is_base58_char(body[i - from]));
            return false;
        }
        i = i + 1;
    }
    assert(forall|j: int| 0 <= j < body.len() ==> body[j] == s@[from + j]);
    assert(forall|j: int| 0 <= j < body.len() ==> is_base58_char(#[trigger] body[j]));

    let mut zeros: usize = 0;
    i = from;
    assert(s@.subrange(from as int, end as int) =~= body);
    while i < end && s.get_char(i) == '1'
        invariant
            from <= i <= end <= s@.len(),
            zeros == i - from,
            body == s@.subrange(from as int, end as int),
            part == s@.subrange(start as int, end as int),
            is_key_part(part) == is_key_body(body),
            end - from <= 44,
            leading_ones(body) == zeros + leading_ones(s@.subrange(i as int, end as int)),
        decreases end - i,
    {
        proof {
            let t = s@.subrange(i as int, end as int);
            assert(t[0] == '1');
            assert(t.drop_first() =~= s@.subrange(i + 1, end as int));
        }
        i = i + 1;
        zeros = zeros + 1;
    }
    proof {
        let t = s@.subrange(i as int, end as int);
        if i < end {
            assert(t[0] == s@[i as int]);
        }
        assert(leading_ones(t) == 0);
    }

    let mut limbs: Vec<u8> = Vec::new();
    i = from;
    assert(s@.subrange(from as int, from as int) =~= Seq::<char>::empty());
    while i < end
        invariant
            from <= i <= end <= s@.len(),
            body == s@.subrange(from as int, end as int),
            part == s@.subrange(start as int, end as int),
            is_key_part(part) == is_key_body(body),
            end - from <= 44,
            forall|j: int| from <= j < end ==> is_base58_char(#[trigger] s@[j]),
            le_value(limbs@) == b58_value(s@.subrange(from as int, i as int)),
        decreases end - i,
    {
        let d = digit_of(s.get_char(i));
        mul58_add(&mut limbs, d);
        proof {
            let t = s@.subrange(from as int, i + 1);
            assert(t.drop_last() =~= s@.subrange(from as int, i as int));
            assert(t.last() == s@[i as int]);
        }
        i = i + 1;
    }
    trim(&mut limbs);
    proof {
        lemma_trimmed_byte_len(limbs@);
    }
    zeros <= 32 && limbs.len() == 32 - zeros
}

/// Checks that `vk` is a well-formed verkey.
pub fn validate_key(vk: &str) -> (r: Result<(), crate::ErrorKind>)
    ensures
        r is Ok <==> valid_verkey(vk@),
        r is Err ==> r == Err::<(), crate::ErrorKind>(crate::ErrorKind::InvalidKeyFormat),
{
    let n: usize = vk.unicode_len();
    if n > MAX_VERKEY_CHARS {
        return Err(crate::ErrorKind::InvalidKeyFormat);
    }
    assert(vk@.subrange(0, n as int) =~= vk@);
    if check_key_part(vk, 0, n) {
        return Ok(());
    }
    if n >= 8 {
        let mut suffix = true;
        let mut i: usize = 0;
        while i < 8
            invariant
                8 <= n == vk@.len(),
                i <= 8,
                suffix == (forall|j: int| 0 <= j < i ==> vk@[n - 8 + j] == #[trigger] ed25519_suffix()[j]),
            decreases 8 - i,
        {
            let expected = if i == 0 { ':' } else if i == 1 { 'e' } else if i == 2 { 'd' }
                else if i == 3 { '2' } else if i == 4 { '5' } else if i == 5 { '5' }
                else if i == 6 { '1' } else { '9' };
            assert(expected == ed25519_suffix()[i as int]);
            let c = vk.get_char(n - 8 + i);
            suffix = suffix && c == expected;
            i = i + 1;
        }
        if suffix {
            assert(vk@.subrange(n - 8, n as int) =~= ed25519_suffix());
        } else {
            assert(vk@.subrange(n - 8, n as int) != ed25519_suffix());
        }
        assert(!is_key_part(vk@));
        if suffix && check_key_part(vk, 0, n - 8) {
            return Ok(());
        }
    }
    Err(crate::ErrorKind::InvalidKeyFormat)
}

} // verus!
