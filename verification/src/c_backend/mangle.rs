//! C identifiers for Aria names.

use vstd::prelude::*;
use vstd::string::*;
use vstd::utf8::encode_utf8;

verus! {

/// Bytes that stand for themselves in a C identifier.
pub open spec fn plain(b: u8) -> bool {
    0x30 <= b <= 0x39 || 0x41 <= b <= 0x5A || 0x61 <= b <= 0x7A || b == 0x5F
}

/// The lowercase hexadecimal digit `n`, as an ASCII byte.
pub open spec fn hex_digit(n: int) -> u8 {
    if n < 10 {
        (0x30 + n) as u8
    } else {
        (0x61 + n - 10) as u8
    }
}

/// Whether a byte is a lowercase hexadecimal digit.
pub open spec fn is_hex(b: u8) -> bool {
    0x30 <= b <= 0x39 || 0x61 <= b <= 0x66
}

/// Whether the first byte stands for itself: it is plain, and no `_` that the two
/// bytes behind it would turn into an escape.
pub open spec fn kept(bytes: Seq<u8>) -> bool {
    plain(bytes[0]) && !(bytes[0] == 0x5F && bytes.len() > 2 && is_hex(bytes[1]) && is_hex(
        bytes[2],
    ))
}

/// The first byte in a C identifier: itself if it is kept, else `_` and its two
/// hexadecimal digits.
pub open spec fn escaped(bytes: Seq<u8>) -> Seq<char> {
    if kept(bytes) {
        seq![bytes[0] as char]
    } else {
        seq![
            '_',
            hex_digit(bytes[0] as int / 16) as char,
            hex_digit(bytes[0] as int % 16) as char,
        ]
    }
}

/// All bytes of a name in a C identifier.
pub open spec fn mangled(bytes: Seq<u8>) -> Seq<char>
    decreases bytes.len(),
{
    if bytes.len() == 0 {
        Seq::empty()
    } else {
        escaped(bytes) + mangled(bytes.drop_first())
    }
}

/// The C identifier of an Aria variable.
pub open spec fn var_name(name: Seq<char>) -> Seq<char> {
    "v_"@ + mangled(encode_utf8(name))
}

/// The C identifier of an Aria function.
pub open spec fn fn_name(name: Seq<char>) -> Seq<char> {
    "af_"@ + mangled(encode_utf8(name))
}

fn hex_char(n: u8) -> (c: char)
    requires
        n < 16,
    ensures
        c == hex_digit(n as int) as char,
{
    if n < 10 {
        (0x30 + n) as char
    } else {
        (0x61 + (n - 10)) as char
    }
}

fn hex(b: u8) -> (r: bool)
    ensures
        r == is_hex(b),
{
    (0x30 <= b && b <= 0x39) || (0x61 <= b && b <= 0x66)
}

fn push_mangled(out: &mut String, name: &str)
    ensures
        final(out)@ == old(out)@ + mangled(encode_utf8(name@)),
{
    let bytes: &[u8] = name.as_bytes();
    let ghost start = out@;
    let ghost all = encode_utf8(name@);
    let mut i: usize = 0;
    assert(all.skip(0) =~= all);
    while i < bytes.len()
        invariant
            i <= bytes@.len(),
            bytes@ == all,
            out@ + mangled(all.skip(i as int)) == start + mangled(all),
        decreases bytes@.len() - i,
    {
        let ghost before = out@;
        let b: u8 = bytes[i];
        let opens: bool = b == 0x5F && bytes.len() - i > 2 && hex(bytes[i + 1]) && hex(bytes[i + 2]);
        if ((0x30 <= b && b <= 0x39) || (0x41 <= b && b <= 0x5A) || (0x61 <= b && b <= 0x7A) || b
            == 0x5F) && !opens {
            out.push(b as char);
        } else {
            out.push('_');
            out.push(hex_char(b / 16));
            out.push(hex_char(b % 16));
        }
        proof {
            let rest = all.skip(i as int);
            assert(rest.drop_first() =~= all.skip(i + 1));
            assert(rest[0] == b);
            assert(out@ =~= before + escaped(rest));
            assert(before + (escaped(rest) + mangled(all.skip(i + 1))) =~= (before + escaped(rest))
                + mangled(all.skip(i + 1)));
        }
        i = i + 1;
    }
    proof {
        assert(all.skip(i as int).len() == 0);
        assert(out@ + mangled(all.skip(i as int)) =~= out@);
    }
}

/// Map an Aria variable name (e.g. `$t3`, `x`) to a C identifier.
pub fn cvar(name: &str) -> (r: String)
    ensures
        r@ == var_name(name@),
{
    let mut s: String = "v_".to_owned();
    push_mangled(&mut s, name);
    s
}

/// Map an Aria function name to its emitted C function name.
pub fn cfn(name: &str) -> (r: String)
    ensures
        r@ == fn_name(name@),
{
    let mut s: String = "af_".to_owned();
    push_mangled(&mut s, name);
    s
}

// ---------------------------------------------------------------------------
// Distinct names stay distinct
// ---------------------------------------------------------------------------

/// A mangled name that starts with a hexadecimal digit starts with that byte.
proof fn lemma_starts_hex(x: Seq<u8>, h: u8)
    requires
        mangled(x).len() > 0,
        mangled(x)[0] == h as char,
        is_hex(h),
    ensures
        x.len() > 0,
        x[0] == h,
        mangled(x).drop_first() == mangled(x.drop_first()),
{
    assert(x.len() > 0);
    if kept(x) {
        assert(x[0] as char == h as char);
        assert(mangled(x).drop_first() =~= mangled(x.drop_first()));
    } else {
        assert(mangled(x)[0] == '_');
        assert('_' == 0x5Fu8 as char);
    }
}

proof fn lemma_hex(a: u8, b: u8)
    ensures
        is_hex(hex_digit(a as int / 16)),
        is_hex(hex_digit(a as int % 16)),
        hex_digit(a as int / 16) == hex_digit(b as int / 16) && hex_digit(a as int % 16)
            == hex_digit(b as int % 16) ==> a == b,
{
}

/// A first byte that is kept and one that is escaped give different identifiers.
proof fn lemma_kept_vs_escaped(x: Seq<u8>, y: Seq<u8>)
    requires
        x.len() > 0,
        y.len() > 0,
        kept(x),
        !kept(y),
    ensures
        mangled(x) != mangled(y),
{
    let m = mangled(x);
    if m == mangled(y) {
        let b = y[0];
        lemma_hex(b, b);
        let x1 = x.drop_first();
        assert(m[0] == '_');
        assert('_' == 0x5Fu8 as char);
        assert(x[0] == 0x5F);
        assert(m.drop_first() =~= mangled(x1));
        assert(m[1] == hex_digit(b as int / 16) as char);
        assert(m[2] == hex_digit(b as int % 16) as char);
        assert(mangled(x1)[0] == m[1]);
        assert(mangled(x1)[1] == m[2]);
        lemma_starts_hex(x1, hex_digit(b as int / 16));
        let x2 = x1.drop_first();
        assert(mangled(x2)[0] == m[2]);
        lemma_starts_hex(x2, hex_digit(b as int % 16));
        assert(is_hex(x[1]) && is_hex(x[2]));
    }
}

proof fn lemma_mangled_injective(x: Seq<u8>, y: Seq<u8>)
    requires
        mangled(x) == mangled(y),
    ensures
        x == y,
    decreases x.len(),
{
    if x.len() == 0 {
        if y.len() > 0 {
            assert(mangled(y).len() > 0);
        }
        assert(x =~= y);
    } else if y.len() == 0 {
        assert(mangled(x).len() > 0);
    } else {
        let m = mangled(x);
        if kept(x) && kept(y) {
            assert(m[0] == x[0] as char);
            assert(m[0] == y[0] as char);
            assert(m.drop_first() =~= mangled(x.drop_first()));
            assert(m.drop_first() =~= mangled(y.drop_first()));
        } else if kept(x) {
            lemma_kept_vs_escaped(x, y);
        } else if kept(y) {
            lemma_kept_vs_escaped(y, x);
        } else {
            lemma_hex(x[0], y[0]);
            assert(m[1] == hex_digit(x[0] as int / 16) as char);
            assert(m[2] == hex_digit(x[0] as int % 16) as char);
            assert(m[1] == hex_digit(y[0] as int / 16) as char);
            assert(m[2] == hex_digit(y[0] as int % 16) as char);
            assert(m.skip(3) =~= mangled(x.drop_first()));
            assert(m.skip(3) =~= mangled(y.drop_first()));
        }
        lemma_mangled_injective(x.drop_first(), y.drop_first());
        assert(x =~= seq![x[0]] + x.drop_first());
        assert(y =~= seq![y[0]] + y.drop_first());
    }
}

/// Distinct Aria names get distinct C identifiers, for variables and for
/// functions.
pub proof fn identifiers_distinct()
    ensures
        forall|a: Seq<char>, b: Seq<char>| #[trigger]
            var_name(a) == #[trigger] var_name(b) ==> a == b,
        forall|a: Seq<char>, b: Seq<char>| #[trigger]
            fn_name(a) == #[trigger] fn_name(b) ==> a == b,
{
    assert forall|a: Seq<char>, b: Seq<char>| #[trigger]
        var_name(a) == #[trigger] var_name(b) implies a == b by {
        let n = "v_"@.len() as int;
        assert(var_name(a).skip(n) =~= mangled(encode_utf8(a)));
        assert(var_name(b).skip(n) =~= mangled(encode_utf8(b)));
        lemma_mangled_injective(encode_utf8(a), encode_utf8(b));
        vstd::utf8::encode_utf8_decode_utf8(a);
        vstd::utf8::encode_utf8_decode_utf8(b);
    }
    assert forall|a: Seq<char>, b: Seq<char>| #[trigger]
        fn_name(a) == #[trigger] fn_name(b) implies a == b by {
        let n = "af_"@.len() as int;
        assert(fn_name(a).skip(n) =~= mangled(encode_utf8(a)));
        assert(fn_name(b).skip(n) =~= mangled(encode_utf8(b)));
        lemma_mangled_injective(encode_utf8(a), encode_utf8(b));
        vstd::utf8::encode_utf8_decode_utf8(a);
        vstd::utf8::encode_utf8_decode_utf8(b);
    }
}

/// Whether a character may stand in a C identifier.
pub open spec fn in_identifier(c: char) -> bool {
    '0' <= c <= '9' || 'A' <= c <= 'Z' || 'a' <= c <= 'z' || c == '_'
}

proof fn lemma_mangled_valid(x: Seq<u8>)
    ensures
        forall|i: int| 0 <= i < mangled(x).len() ==> in_identifier(#[trigger] mangled(x)[i]),
    decreases x.len(),
{
    if x.len() > 0 {
        lemma_mangled_valid(x.drop_first());
        lemma_hex(x[0], x[0]);
        let n = escaped(x).len() as int;
        assert forall|i: int| 0 <= i < mangled(x).len() implies in_identifier(
            #[trigger] mangled(x)[i],
        ) by {
            if i >= n {
                assert(mangled(x)[i] == mangled(x.drop_first())[i - n]);
            }
        }
    }
}

/// The name of a variable or a function is a C identifier: it starts with its
/// prefix and holds letters, digits and `_` alone.
pub proof fn identifiers_valid(name: Seq<char>)
    ensures
        "v_"@.is_prefix_of(var_name(name)),
        "af_"@.is_prefix_of(fn_name(name)),
        forall|i: int| 0 <= i < var_name(name).len() ==> in_identifier(#[trigger] var_name(name)[i]),
        forall|i: int| 0 <= i < fn_name(name).len() ==> in_identifier(#[trigger] fn_name(name)[i]),
{
    let m = mangled(encode_utf8(name));
    lemma_mangled_valid(encode_utf8(name));
    reveal_strlit("v_");
    reveal_strlit("af_");
    assert("v_"@.is_prefix_of(var_name(name))) by {
        assert(var_name(name).subrange(0, 2) =~= "v_"@);
    }
    assert("af_"@.is_prefix_of(fn_name(name))) by {
        assert(fn_name(name).subrange(0, 3) =~= "af_"@);
    }
    assert forall|i: int| 0 <= i < var_name(name).len() implies in_identifier(
        #[trigger] var_name(name)[i],
    ) by {
        if i >= 2 {
            assert(var_name(name)[i] == m[i - 2]);
        }
    }
    assert forall|i: int| 0 <= i < fn_name(name).len() implies in_identifier(
        #[trigger] fn_name(name)[i],
    ) by {
        if i >= 3 {
            assert(fn_name(name)[i] == m[i - 3]);
        }
    }
}

} // verus!
