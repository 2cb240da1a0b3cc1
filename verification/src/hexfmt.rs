use vstd::prelude::*;

verus! {

/// The ASCII code of the lowercase hex digit for a value below sixteen.
pub open spec fn hex_digit(v: int) -> u8 {
    if v < 10 {
        (48 + v) as u8
    } else {
        (87 + v) as u8
    }
}

/// The two lowercase hex digits of one byte.
pub open spec fn hex_byte(b: u8) -> Seq<u8> {
    seq![hex_digit(b as int / 16), hex_digit(b as int % 16)]
}

/// The lowercase hex rendering of a byte string.
pub open spec fn hex_bytes(bs: Seq<u8>) -> Seq<u8>
    decreases bs.len(),
{
    if bs.len() == 0 {
        seq![]
    } else {
        hex_byte(bs[0]) + hex_bytes(bs.drop_first())
    }
}

proof fn lemma_hex_bytes_push(s: Seq<u8>, x: u8)
    ensures
        hex_bytes(s.push(x)) == hex_bytes(s) + hex_byte(x),
    decreases s.len(),
{
    if s.len() == 0 {
        assert(s.push(x)[0] == x);
        assert(s.push(x).drop_first() =~= Seq::<u8>::empty());
        assert(hex_bytes(Seq::<u8>::empty()) =~= Seq::<u8>::empty());
        assert(hex_bytes(s.push(x)) =~= hex_bytes(s) + hex_byte(x));
    } else {
        lemma_hex_bytes_push(s.drop_first(), x);
        assert(s.push(x).drop_first() =~= s.drop_first().push(x));
        assert(s.push(x)[0] == s[0]);
        assert(hex_bytes(s.push(x)) =~= hex_bytes(s) + hex_byte(x));
    }
}

fn hex_digit_exec(v: u8) -> (r: u8)
    requires
        v < 16,
    ensures
        r == hex_digit(v as int),
{
    if v < 10 {
        48 + v
    } else {
        87 + v
    }
}

/// Renders a byte string as lowercase hex, two digits per byte.
pub fn to_hex(bs: &Vec<u8>) -> (r: Vec<u8>)
    ensures
        r@ == hex_bytes(bs@),
{
    let mut out: Vec<u8> = Vec::new();
    let mut i: usize = 0;
    while i < bs.len()
        invariant
            0 <= i <= bs@.len(),
            out@ == hex_bytes(bs@.subrange(0, i as int)),
        decreases bs@.len() - i,
    {
        let b = bs[i];
        out.push(hex_digit_exec(b / 16));
        out.push(hex_digit_exec(b % 16));
        proof {
            lemma_hex_bytes_push(bs@.subrange(0, i as int), b);
            assert(bs@.subrange(0, i + 1) =~= bs@.subrange(0, i as int).push(b));
            assert(out@ =~= hex_bytes(bs@.subrange(0, i + 1)));
        }
        i += 1;
    }
    proof {
        assert(bs@.subrange(0, bs@.len() as int) =~= bs@);
    }
    out
}

} // verus!
