//! The characters Python's `repr()` writes as escapes: those that
//! `str.isprintable` rejects (the control, format, surrogate, private-use,
//! unassigned, line and paragraph separator characters, and the space
//! separators other than the space itself), by the Unicode 14.0 database.

use vstd::prelude::*;

verus! {

/// Code point `x` is one that `str.isprintable` rejects.
pub open spec fn non_printable(x: int) -> bool {
    ||| non_printable_0(x)
    ||| non_printable_1(x)
    ||| non_printable_2(x)
    ||| non_printable_3(x)
    ||| non_printable_4(x)
    ||| non_printable_5(x)
    ||| non_printable_6(x)
    ||| non_printable_7(x)
    ||| non_printable_8(x)
    ||| non_printable_9(x)
    ||| non_printable_10(x)
    ||| non_printable_11(x)
    ||| non_printable_12(x)
    ||| non_printable_13(x)
    ||| non_printable_14(x)
    ||| non_printable_15(x)
    ||| non_printable_16(x)
    ||| non_printable_17(x)
    ||| non_printable_18(x)
    ||| non_printable_19(x)
    ||| non_printable_20(x)
    ||| non_printable_21(x)
}

/// Whether code point `x` is one that `str.isprintable` rejects.
pub fn is_non_printable(x: u32) -> (r: bool)
    ensures
        r == non_printable(x as int),
{
    is_non_printable_0(x)
        || is_non_printable_1(x)
        || is_non_printable_2(x)
        || is_non_printable_3(x)
        || is_non_printable_4(x)
        || is_non_printable_5(x)
        || is_non_printable_6(x)
        || is_non_printable_7(x)
        || is_non_printable_8(x)
        || is_non_printable_9(x)
        || is_non_printable_10(x)
        || is_non_printable_11(x)
        || is_non_printable_12(x)
        || is_non_printable_13(x)
        || is_non_printable_14(x)
        || is_non_printable_15(x)
        || is_non_printable_16(x)
        || is_non_printable_17(x)
        || is_non_printable_18(x)
        || is_non_printable_19(x)
        || is_non_printable_20(x)
        || is_non_printable_21(x)
}

/// The code points from U+0000 to U+09A9 that `str.isprintable` rejects.
pub open spec fn non_printable_0(x: int) -> bool {
    ||| (0x0 <= x && x <= 0x1f)
    ||| (0x7f <= x && x <= 0xa0)
    ||| x == 0xad
    ||| (0x378 <= x && x <= 0x379)
    ||| (0x380 <= x && x <= 0x383)
    ||| x == 0x38b
    ||| x == 0x38d
    ||| x == 0x3a2
    ||| x == 0x530
    ||| (0x557 <= x && x <= 0x558)
    ||| (0x58b <= x && x <= 0x58c)
    ||| x == 0x590
    ||| (0x5c8 <= x && x <= 0x5cf)
    ||| (0x5eb <= x && x <= 0x5ee)
    ||| (0x5f5 <= x && x <= 0x605)
    ||| x == 0x61c
    ||| x == 0x6dd
    ||| (0x70e <= x && x <= 0x70f)
    ||| (0x74b <= x && x <= 0x74c)
    ||| (0x7b2 <= x && x <= 0x7bf)
    ||| (0x7fb <= x && x <= 0x7fc)
    ||| (0x82e <= x && x <= 0x82f)
    ||| x == 0x83f
    ||| (0x85c <= x && x <= 0x85d)
    ||| x == 0x85f
    ||| (0x86b <= x && x <= 0x86f)
    ||| (0x88f <= x && x <= 0x897)
    ||| x == 0x8e2
    ||| x == 0x984
    ||| (0x98d <= x && x <= 0x98e)
    ||| (0x991 <= x && x <= 0x992)
    ||| x == 0x9a9
}

fn is_non_printable_0(x: u32) -> (r: bool)
    ensures
        r == non_printable_0(x as int),
{
    (0x0 <= x && x <= 0x1f)
        || (0x7f <= x && x <= 0xa0)
        || x == 0xad
        || (0x378 <= x && x <= 0x379)
        || (0x380 <= x && x <= 0x383)
        || x == 0x38b
        || x == 0x38d
        || x == 0x3a2
        || x == 0x530
        || (0x557 <= x && x <= 0x558)
        || (0x58b <= x && x <= 0x58c)
        || x == 0x590
        || (0x5c8 <= x && x <= 0x5cf)
        || (0x5eb <= x && x <= 0x5ee)
        || (0x5f5 <= x && x <= 0x605)
        || x == 0x61c
        || x == 0x6dd
        || (0x70e <= x && x <= 0x70f)
        || (0x74b <= x && x <= 0x74c)
        || (0x7b2 <= x && x <= 0x7bf)
        || (0x7fb <= x && x <= 0x7fc)
        || (0x82e <= x && x <= 0x82f)
        || x == 0x83f
        || (0x85c <= x && x <= 0x85d)
        || x == 0x85f
        || (0x86b <= x && x <= 0x86f)
        || (0x88f <= x && x <= 0x897)
        || x == 0x8e2
        || x == 0x984
        || (0x98d <= x && x <= 0x98e)
        || (0x991 <= x && x <= 0x992)
        || x == 0x9a9
}

/// The code points from U+09B1 to U+0AB4 that `str.isprintable` rejects.
pub open spec fn non_printable_1(x: int) -> bool {
    ||| x == 0x9b1
    ||| (0x9b3 <= x && x <= 0x9b5)
    ||| (0x9ba <= x && x <= 0x9bb)
    ||| (0x9c5 <= x && x <= 0x9c6)
    ||| (0x9c9 <= x && x <= 0x9ca)
    ||| (0x9cf <= x && x <= 0x9d6)
    ||| (0x9d8 <= x && x <= 0x9db)
    ||| x == 0x9de
    ||| (0x9e4 <= x && x <= 0x9e5)
    ||| (0x9ff <= x && x <= 0xa00)
    ||| x == 0xa04
    ||| (0xa0b <= x && x <= 0xa0e)
    ||| (0xa11 <= x && x <= 0xa12)
    ||| x == 0xa29
    ||| x == 0xa31
    ||| x == 0xa34
    ||| x == 0xa37
    ||| (0xa3a <= x && x <= 0xa3b)
    ||| x == 0xa3d
    ||| (0xa43 <= x && x <= 0xa46)
    ||| (0xa49 <= x && x <= 0xa4a)
    ||| (0xa4e <= x && x <= 0xa50)
    ||| (0xa52 <= x && x <= 0xa58)
    ||| x == 0xa5d
    ||| (0xa5f <= x && x <= 0xa65)
    ||| (0xa77 <= x && x <= 0xa80)
    ||| x == 0xa84
    ||| x == 0xa8e
    ||| x == 0xa92
    ||| x == 0xaa9
    ||| x == 0xab1
    ||| x == 0xab4
}

fn is_non_printable_1(x: u32) -> (r: bool)
    ensures
        r == non_printable_1(x as int),
{
    x == 0x9b1
        || (0x9b3 <= x && x <= 0x9b5)
        || (0x9ba <= x && x <= 0x9bb)
        || (0x9c5 <= x && x <= 0x9c6)
        || (0x9c9 <= x && x <= 0x9ca)
        || (0x9cf <= x && x <= 0x9d6)
        || (0x9d8 <= x && x <= 0x9db)
        || x == 0x9de
        || (0x9e4 <= x && x <= 0x9e5)
        || (0x9ff <= x && x <= 0xa00)
        || x == 0xa04
        || (0xa0b <= x && x <= 0xa0e)
        || (0xa11 <= x && x <= 0xa12)
        || x == 0xa29
        || x == 0xa31
        || x == 0xa34
        || x == 0xa37
        || (0xa3a <= x && x <= 0xa3b)
        || x == 0xa3d
        || (0xa43 <= x && x <= 0xa46)
        || (0xa49 <= x && x <= 0xa4a)
        || (0xa4e <= x && x <= 0xa50)
        || (0xa52 <= x && x <= 0xa58)
        || x == 0xa5d
        || (0xa5f <= x && x <= 0xa65)
        || (0xa77 <= x && x <= 0xa80)
        || x == 0xa84
        || x == 0xa8e
        || x == 0xa92
        || x == 0xaa9
        || x == 0xab1
        || x == 0xab4
}

/// The code points from U+0ABA to U+0BBD that `str.isprintable` rejects.
pub open spec fn non_printable_2(x: int) -> bool {
    ||| (0xaba <= x && x <= 0xabb)
    ||| x == 0xac6
    ||| x == 0xaca
    ||| (0xace <= x && x <= 0xacf)
    ||| (0xad1 <= x && x <= 0xadf)
    ||| (0xae4 <= x && x <= 0xae5)
    ||| (0xaf2 <= x && x <= 0xaf8)
    ||| x == 0xb00
    ||| x == 0xb04
    ||| (0xb0d <= x && x <= 0xb0e)
    ||| (0xb11 <= x && x <= 0xb12)
    ||| x == 0xb29
    ||| x == 0xb31
    ||| x == 0xb34
    ||| (0xb3a <= x && x <= 0xb3b)
    ||| (0xb45 <= x && x <= 0xb46)
    ||| (0xb49 <= x && x <= 0xb4a)
    ||| (0xb4e <= x && x <= 0xb54)
    ||| (0xb58 <= x && x <= 0xb5b)
    ||| x == 0xb5e
    ||| (0xb64 <= x && x <= 0xb65)
    ||| (0xb78 <= x && x <= 0xb81)
    ||| x == 0xb84
    ||| (0xb8b <= x && x <= 0xb8d)
    ||| x == 0xb91
    ||| (0xb96 <= x && x <= 0xb98)
    ||| x == 0xb9b
    ||| x == 0xb9d
    ||| (0xba0 <= x && x <= 0xba2)
    ||| (0xba5 <= x && x <= 0xba7)
    ||| (0xbab <= x && x <= 0xbad)
    ||| (0xbba <= x && x <= 0xbbd)
}

fn is_non_printable_2(x: u32) -> (r: bool)
    ensures
        r == non_printable_2(x as int),
{
    (0xaba <= x && x <= 0xabb)
        || x == 0xac6
        || x == 0xaca
        || (0xace <= x && x <= 0xacf)
        || (0xad1 <= x && x <= 0xadf)
        || (0xae4 <= x && x <= 0xae5)
        || (0xaf2 <= x && x <= 0xaf8)
        || x == 0xb00
        || x == 0xb04
        || (0xb0d <= x && x <= 0xb0e)
        || (0xb11 <= x && x <= 0xb12)
        || x == 0xb29
        || x == 0xb31
        || x == 0xb34
        || (0xb3a <= x && x <= 0xb3b)
        || (0xb45 <= x && x <= 0xb46)
        || (0xb49 <= x && x <= 0xb4a)
        || (0xb4e <= x && x <= 0xb54)
        || (0xb58 <= x && x <= 0xb5b)
        || x == 0xb5e
        || (0xb64 <= x && x <= 0xb65)
        || (0xb78 <= x && x <= 0xb81)
        || x == 0xb84
        || (0xb8b <= x && x <= 0xb8d)
        || x == 0xb91
        || (0xb96 <= x && x <= 0xb98)
        || x == 0xb9b
        || x == 0xb9d
        || (0xba0 <= x && x <= 0xba2)
        || (0xba5 <= x && x <= 0xba7)
        || (0xbab <= x && x <= 0xbad)
        || (0xbba <= x && x <= 0xbbd)
}

/// The code points from U+0BC3 to U+0D0D that `str.isprintable` rejects.
pub open spec fn non_printable_3(x: int) -> bool {
    ||| (0xbc3 <= x && x <= 0xbc5)
    ||| x == 0xbc9
    ||| (0xbce <= x && x <= 0xbcf)
    ||| (0xbd1 <= x && x <= 0xbd6)
    ||| (0xbd8 <= x && x <= 0xbe5)
    ||| (0xbfb <= x && x <= 0xbff)
    ||| x == 0xc0d
    ||| x == 0xc11
    ||| x == 0xc29
    ||| (0xc3a <= x && x <= 0xc3b)
    ||| x == 0xc45
    ||| x == 0xc49
    ||| (0xc4e <= x && x <= 0xc54)
    ||| x == 0xc57
    ||| (0xc5b <= x && x <= 0xc5c)
    ||| (0xc5e <= x && x <= 0xc5f)
    ||| (0xc64 <= x && x <= 0xc65)
    ||| (0xc70 <= x && x <= 0xc76)
    ||| x == 0xc8d
    ||| x == 0xc91
    ||| x == 0xca9
    ||| x == 0xcb4
    ||| (0xcba <= x && x <= 0xcbb)
    ||| x == 0xcc5
    ||| x == 0xcc9
    ||| (0xcce <= x && x <= 0xcd4)
    ||| (0xcd7 <= x && x <= 0xcdc)
    ||| x == 0xcdf
    ||| (0xce4 <= x && x <= 0xce5)
    ||| x == 0xcf0
    ||| (0xcf3 <= x && x <= 0xcff)
    ||| x == 0xd0d
}

fn is_non_printable_3(x: u32) -> (r: bool)
    ensures
        r == non_printable_3(x as int),
{
    (0xbc3 <= x && x <= 0xbc5)
        || x == 0xbc9
        || (0xbce <= x && x <= 0xbcf)
        || (0xbd1 <= x && x <= 0xbd6)
        || (0xbd8 <= x && x <= 0xbe5)
        || (0xbfb <= x && x <= 0xbff)
        || x == 0xc0d
        || x == 0xc11
        || x == 0xc29
        || (0xc3a <= x && x <= 0xc3b)
        || x == 0xc45
        || x == 0xc49
        || (0xc4e <= x && x <= 0xc54)
        || x == 0xc57
        || (0xc5b <= x && x <= 0xc5c)
        || (0xc5e <= x && x <= 0xc5f)
        || (0xc64 <= x && x <= 0xc65)
        || (0xc70 <= x && x <= 0xc76)
        || x == 0xc8d
        || x == 0xc91
        || x == 0xca9
        || x == 0xcb4
        || (0xcba <= x && x <= 0xcbb)
        || x == 0xcc5
        || x == 0xcc9
        || (0xcce <= x && x <= 0xcd4)
        || (0xcd7 <= x && x <= 0xcdc)
        || x == 0xcdf
        || (0xce4 <= x && x <= 0xce5)
        || x == 0xcf0
        || (0xcf3 <= x && x <= 0xcff)
        || x == 0xd0d
}

/// The code points from U+0D11 to U+0F48 that `str.isprintable` rejects.
pub open spec fn non_printable_4(x: int) -> bool {
    ||| x == 0xd11
    ||| x == 0xd45
    ||| x == 0xd49
    ||| (0xd50 <= x && x <= 0xd53)
    ||| (0xd64 <= x && x <= 0xd65)
    ||| x == 0xd80
    ||| x == 0xd84
    ||| (0xd97 <= x && x <= 0xd99)
    ||| x == 0xdb2
    ||| x == 0xdbc
    ||| (0xdbe <= x && x <= 0xdbf)
    ||| (0xdc7 <= x && x <= 0xdc9)
    ||| (0xdcb <= x && x <= 0xdce)
    ||| x == 0xdd5
    ||| x == 0xdd7
    ||| (0xde0 <= x && x <= 0xde5)
    ||| (0xdf0 <= x && x <= 0xdf1)
    ||| (0xdf5 <= x && x <= 0xe00)
    ||| (0xe3b <= x && x <= 0xe3e)
    ||| (0xe5c <= x && x <= 0xe80)
    ||| x == 0xe83
    ||| x == 0xe85
    ||| x == 0xe8b
    ||| x == 0xea4
    ||| x == 0xea6
    ||| (0xebe <= x && x <= 0xebf)
    ||| x == 0xec5
    ||| x == 0xec7
    ||| (0xece <= x && x <= 0xecf)
    ||| (0xeda <= x && x <= 0xedb)
    ||| (0xee0 <= x && x <= 0xeff)
    ||| x == 0xf48
}

fn is_non_printable_4(x: u32) -> (r: bool)
    ensures
        r == non_printable_4(x as int),
{
    x == 0xd11
        || x == 0xd45
        || x == 0xd49
        || (0xd50 <= x && x <= 0xd53)
        || (0xd64 <= x && x <= 0xd65)
        || x == 0xd80
        || x == 0xd84
        || (0xd97 <= x && x <= 0xd99)
        || x == 0xdb2
        || x == 0xdbc
        || (0xdbe <= x && x <= 0xdbf)
        || (0xdc7 <= x && x <= 0xdc9)
        || (0xdcb <= x && x <= 0xdce)
        || x == 0xdd5
        || x == 0xdd7
        || (0xde0 <= x && x <= 0xde5)
        || (0xdf0 <= x && x <= 0xdf1)
        || (0xdf5 <= x && x <= 0xe00)
        || (0xe3b <= x && x <= 0xe3e)
        || (0xe5c <= x && x <= 0xe80)
        || x == 0xe83
        || x == 0xe85
        || x == 0xe8b
        || x == 0xea4
        || x == 0xea6
        || (0xebe <= x && x <= 0xebf)
        || x == 0xec5
        || x == 0xec7
        || (0xece <= x && x <= 0xecf)
        || (0xeda <= x && x <= 0xedb)
        || (0xee0 <= x && x <= 0xeff)
        || x == 0xf48
}

/// The code points from U+0F6D to U+171E that `str.isprintable` rejects.
pub open spec fn non_printable_5(x: int) -> bool {
    ||| (0xf6d <= x && x <= 0xf70)
    ||| x == 0xf98
    ||| x == 0xfbd
    ||| x == 0xfcd
    ||| (0xfdb <= x && x <= 0xfff)
    ||| x == 0x10c6
    ||| (0x10c8 <= x && x <= 0x10cc)
    ||| (0x10ce <= x && x <= 0x10cf)
    ||| x == 0x1249
    ||| (0x124e <= x && x <= 0x124f)
    ||| x == 0x1257
    ||| x == 0x1259
    ||| (0x125e <= x && x <= 0x125f)
    ||| x == 0x1289
    ||| (0x128e <= x && x <= 0x128f)
    ||| x == 0x12b1
    ||| (0x12b6 <= x && x <= 0x12b7)
    ||| x == 0x12bf
    ||| x == 0x12c1
    ||| (0x12c6 <= x && x <= 0x12c7)
    ||| x == 0x12d7
    ||| x == 0x1311
    ||| (0x1316 <= x && x <= 0x1317)
    ||| (0x135b <= x && x <= 0x135c)
    ||| (0x137d <= x && x <= 0x137f)
    ||| (0x139a <= x && x <= 0x139f)
    ||| (0x13f6 <= x && x <= 0x13f7)
    ||| (0x13fe <= x && x <= 0x13ff)
    ||| x == 0x1680
    ||| (0x169d <= x && x <= 0x169f)
    ||| (0x16f9 <= x && x <= 0x16ff)
    ||| (0x1716 <= x && x <= 0x171e)
}

fn is_non_printable_5(x: u32) -> (r: bool)
    ensures
        r == non_printable_5(x as int),
{
    (0xf6d <= x && x <= 0xf70)
        || x == 0xf98
        || x == 0xfbd
        || x == 0xfcd
        || (0xfdb <= x && x <= 0xfff)
        || x == 0x10c6
        || (0x10c8 <= x && x <= 0x10cc)
        || (0x10ce <= x && x <= 0x10cf)
        || x == 0x1249
        || (0x124e <= x && x <= 0x124f)
        || x == 0x1257
        || x == 0x1259
        || (0x125e <= x && x <= 0x125f)
        || x == 0x1289
        || (0x128e <= x && x <= 0x128f)
        || x == 0x12b1
        || (0x12b6 <= x && x <= 0x12b7)
        || x == 0x12bf
        || x == 0x12c1
        || (0x12c6 <= x && x <= 0x12c7)
        || x == 0x12d7
        || x == 0x1311
        || (0x1316 <= x && x <= 0x1317)
        || (0x135b <= x && x <= 0x135c)
        || (0x137d <= x && x <= 0x137f)
        || (0x139a <= x && x <= 0x139f)
        || (0x13f6 <= x && x <= 0x13f7)
        || (0x13fe <= x && x <= 0x13ff)
        || x == 0x1680
        || (0x169d <= x && x <= 0x169f)
        || (0x16f9 <= x && x <= 0x16ff)
        || (0x1716 <= x && x <= 0x171e)
}

/// The code points from U+1737 to U+1BFB that `str.isprintable` rejects.
pub open spec fn non_printable_6(x: int) -> bool {
    ||| (0x1737 <= x && x <= 0x173f)
    ||| (0x1754 <= x && x <= 0x175f)
    ||| x == 0x176d
    ||| x == 0x1771
    ||| (0x1774 <= x && x <= 0x177f)
    ||| (0x17de <= x && x <= 0x17df)
    ||| (0x17ea <= x && x <= 0x17ef)
    ||| (0x17fa <= x && x <= 0x17ff)
    ||| x == 0x180e
    ||| (0x181a <= x && x <= 0x181f)
    ||| (0x1879 <= x && x <= 0x187f)
    ||| (0x18ab <= x && x <= 0x18af)
    ||| (0x18f6 <= x && x <= 0x18ff)
    ||| x == 0x191f
    ||| (0x192c <= x && x <= 0x192f)
    ||| (0x193c <= x && x <= 0x193f)
    ||| (0x1941 <= x && x <= 0x1943)
    ||| (0x196e <= x && x <= 0x196f)
    ||| (0x1975 <= x && x <= 0x197f)
    ||| (0x19ac <= x && x <= 0x19af)
    ||| (0x19ca <= x && x <= 0x19cf)
    ||| (0x19db <= x && x <= 0x19dd)
    ||| (0x1a1c <= x && x <= 0x1a1d)
    ||| x == 0x1a5f
    ||| (0x1a7d <= x && x <= 0x1a7e)
    ||| (0x1a8a <= x && x <= 0x1a8f)
    ||| (0x1a9a <= x && x <= 0x1a9f)
    ||| (0x1aae <= x && x <= 0x1aaf)
    ||| (0x1acf <= x && x <= 0x1aff)
    ||| (0x1b4d <= x && x <= 0x1b4f)
    ||| x == 0x1b7f
    ||| (0x1bf4 <= x && x <= 0x1bfb)
}

fn is_non_printable_6(x: u32) -> (r: bool)
    ensures
        r == non_printable_6(x as int),
{
    (0x1737 <= x && x <= 0x173f)
        || (0x1754 <= x && x <= 0x175f)
        || x == 0x176d
        || x == 0x1771
        || (0x1774 <= x && x <= 0x177f)
        || (0x17de <= x && x <= 0x17df)
        || (0x17ea <= x && x <= 0x17ef)
        || (0x17fa <= x && x <= 0x17ff)
        || x == 0x180e
        || (0x181a <= x && x <= 0x181f)
        || (0x1879 <= x && x <= 0x187f)
        || (0x18ab <= x && x <= 0x18af)
        || (0x18f6 <= x && x <= 0x18ff)
        || x == 0x191f
        || (0x192c <= x && x <= 0x192f)
        || (0x193c <= x && x <= 0x193f)
        || (0x1941 <= x && x <= 0x1943)
        || (0x196e <= x && x <= 0x196f)
        || (0x1975 <= x && x <= 0x197f)
        || (0x19ac <= x && x <= 0x19af)
        || (0x19ca <= x && x <= 0x19cf)
        || (0x19db <= x && x <= 0x19dd)
        || (0x1a1c <= x && x <= 0x1a1d)
        || x == 0x1a5f
        || (0x1a7d <= x && x <= 0x1a7e)
        || (0x1a8a <= x && x <= 0x1a8f)
        || (0x1a9a <= x && x <= 0x1a9f)
        || (0x1aae <= x && x <= 0x1aaf)
        || (0x1acf <= x && x <= 0x1aff)
        || (0x1b4d <= x && x <= 0x1b4f)
        || x == 0x1b7f
        || (0x1bf4 <= x && x <= 0x1bfb)
}

/// The code points from U+1C38 to U+245F that `str.isprintable` rejects.
pub open spec fn non_printable_7(x: int) -> bool {
    ||| (0x1c38 <= x && x <= 0x1c3a)
    ||| (0x1c4a <= x && x <= 0x1c4c)
    ||| (0x1c89 <= x && x <= 0x1c8f)
    ||| (0x1cbb <= x && x <= 0x1cbc)
    ||| (0x1cc8 <= x && x <= 0x1ccf)
    ||| (0x1cfb <= x && x <= 0x1cff)
    ||| (0x1f16 <= x && x <= 0x1f17)
    ||| (0x1f1e <= x && x <= 0x1f1f)
    ||| (0x1f46 <= x && x <= 0x1f47)
    ||| (0x1f4e <= x && x <= 0x1f4f)
    ||| x == 0x1f58
    ||| x == 0x1f5a
    ||| x == 0x1f5c
    ||| x == 0x1f5e
    ||| (0x1f7e <= x && x <= 0x1f7f)
    ||| x == 0x1fb5
    ||| x == 0x1fc5
    ||| (0x1fd4 <= x && x <= 0x1fd5)
    ||| x == 0x1fdc
    ||| (0x1ff0 <= x && x <= 0x1ff1)
    ||| x == 0x1ff5
    ||| (0x1fff <= x && x <= 0x200f)
    ||| (0x2028 <= x && x <= 0x202f)
    ||| (0x205f <= x && x <= 0x206f)
    ||| (0x2072 <= x && x <= 0x2073)
    ||| x == 0x208f
    ||| (0x209d <= x && x <= 0x209f)
    ||| (0x20c1 <= x && x <= 0x20cf)
    ||| (0x20f1 <= x && x <= 0x20ff)
    ||| (0x218c <= x && x <= 0x218f)
    ||| (0x2427 <= x && x <= 0x243f)
    ||| (0x244b <= x && x <= 0x245f)
}

fn is_non_printable_7(x: u32) -> (r: bool)
    ensures
        r == non_printable_7(x as int),
{
    (0x1c38 <= x && x <= 0x1c3a)
        || (0x1c4a <= x && x <= 0x1c4c)
        || (0x1c89 <= x && x <= 0x1c8f)
        || (0x1cbb <= x && x <= 0x1cbc)
        || (0x1cc8 <= x && x <= 0x1ccf)
        || (0x1cfb <= x && x <= 0x1cff)
        || (0x1f16 <= x && x <= 0x1f17)
        || (0x1f1e <= x && x <= 0x1f1f)
        || (0x1f46 <= x && x <= 0x1f47)
        || (0x1f4e <= x && x <= 0x1f4f)
        || x == 0x1f58
        || x == 0x1f5a
        || x == 0x1f5c
        || x == 0x1f5e
        || (0x1f7e <= x && x <= 0x1f7f)
        || x == 0x1fb5
        || x == 0x1fc5
        || (0x1fd4 <= x && x <= 0x1fd5)
        || x == 0x1fdc
        || (0x1ff0 <= x && x <= 0x1ff1)
        || x == 0x1ff5
        || (0x1fff <= x && x <= 0x200f)
        || (0x2028 <= x && x <= 0x202f)
        || (0x205f <= x && x <= 0x206f)
        || (0x2072 <= x && x <= 0x2073)
        || x == 0x208f
        || (0x209d <= x && x <= 0x209f)
        || (0x20c1 <= x && x <= 0x20cf)
        || (0x20f1 <= x && x <= 0x20ff)
        || (0x218c <= x && x <= 0x218f)
        || (0x2427 <= x && x <= 0x243f)
        || (0x244b <= x && x <= 0x245f)
}

/// The code points from U+2B74 to U+A63F that `str.isprintable` rejects.
pub open spec fn non_printable_8(x: int) -> bool {
    ||| (0x2b74 <= x && x <= 0x2b75)
    ||| x == 0x2b96
    ||| (0x2cf4 <= x && x <= 0x2cf8)
    ||| x == 0x2d26
    ||| (0x2d28 <= x && x <= 0x2d2c)
    ||| (0x2d2e <= x && x <= 0x2d2f)
    ||| (0x2d68 <= x && x <= 0x2d6e)
    ||| (0x2d71 <= x && x <= 0x2d7e)
    ||| (0x2d97 <= x && x <= 0x2d9f)
    ||| x == 0x2da7
    ||| x == 0x2daf
    ||| x == 0x2db7
    ||| x == 0x2dbf
    ||| x == 0x2dc7
    ||| x == 0x2dcf
    ||| x == 0x2dd7
    ||| x == 0x2ddf
    ||| (0x2e5e <= x && x <= 0x2e7f)
    ||| x == 0x2e9a
    ||| (0x2ef4 <= x && x <= 0x2eff)
    ||| (0x2fd6 <= x && x <= 0x2fef)
    ||| (0x2ffc <= x && x <= 0x3000)
    ||| x == 0x3040
    ||| (0x3097 <= x && x <= 0x3098)
    ||| (0x3100 <= x && x <= 0x3104)
    ||| x == 0x3130
    ||| x == 0x318f
    ||| (0x31e4 <= x && x <= 0x31ef)
    ||| x == 0x321f
    ||| (0xa48d <= x && x <= 0xa48f)
    ||| (0xa4c7 <= x && x <= 0xa4cf)
    ||| (0xa62c <= x && x <= 0xa63f)
}

fn is_non_printable_8(x: u32) -> (r: bool)
    ensures
        r == non_printable_8(x as int),
{
    (0x2b74 <= x && x <= 0x2b75)
        || x == 0x2b96
        || (0x2cf4 <= x && x <= 0x2cf8)
        || x == 0x2d26
        || (0x2d28 <= x && x <= 0x2d2c)
        || (0x2d2e <= x && x <= 0x2d2f)
        || (0x2d68 <= x && x <= 0x2d6e)
        || (0x2d71 <= x && x <= 0x2d7e)
        || (0x2d97 <= x && x <= 0x2d9f)
        || x == 0x2da7
        || x == 0x2daf
        || x == 0x2db7
        || x == 0x2dbf
        || x == 0x2dc7
        || x == 0x2dcf
        || x == 0x2dd7
        || x == 0x2ddf
        || (0x2e5e <= x && x <= 0x2e7f)
        || x == 0x2e9a
        || (0x2ef4 <= x && x <= 0x2eff)
        || (0x2fd6 <= x && x <= 0x2fef)
        || (0x2ffc <= x && x <= 0x3000)
        || x == 0x3040
        || (0x3097 <= x && x <= 0x3098)
        || (0x3100 <= x && x <= 0x3104)
        || x == 0x3130
        || x == 0x318f
        || (0x31e4 <= x && x <= 0x31ef)
        || x == 0x321f
        || (0xa48d <= x && x <= 0xa48f)
        || (0xa4c7 <= x && x <= 0xa4cf)
        || (0xa62c <= x && x <= 0xa63f)
}

/// The code points from U+A6F8 to U+FA6F that `str.isprintable` rejects.
pub open spec fn non_printable_9(x: int) -> bool {
    ||| (0xa6f8 <= x && x <= 0xa6ff)
    ||| (0xa7cb <= x && x <= 0xa7cf)
    ||| x == 0xa7d2
    ||| x == 0xa7d4
    ||| (0xa7da <= x && x <= 0xa7f1)
    ||| (0xa82d <= x && x <= 0xa82f)
    ||| (0xa83a <= x && x <= 0xa83f)
    ||| (0xa878 <= x && x <= 0xa87f)
    ||| (0xa8c6 <= x && x <= 0xa8cd)
    ||| (0xa8da <= x && x <= 0xa8df)
    ||| (0xa954 <= x && x <= 0xa95e)
    ||| (0xa97d <= x && x <= 0xa97f)
    ||| x == 0xa9ce
    ||| (0xa9da <= x && x <= 0xa9dd)
    ||| x == 0xa9ff
    ||| (0xaa37 <= x && x <= 0xaa3f)
    ||| (0xaa4e <= x && x <= 0xaa4f)
    ||| (0xaa5a <= x && x <= 0xaa5b)
    ||| (0xaac3 <= x && x <= 0xaada)
    ||| (0xaaf7 <= x && x <= 0xab00)
    ||| (0xab07 <= x && x <= 0xab08)
    ||| (0xab0f <= x && x <= 0xab10)
    ||| (0xab17 <= x && x <= 0xab1f)
    ||| x == 0xab27
    ||| x == 0xab2f
    ||| (0xab6c <= x && x <= 0xab6f)
    ||| (0xabee <= x && x <= 0xabef)
    ||| (0xabfa <= x && x <= 0xabff)
    ||| (0xd7a4 <= x && x <= 0xd7af)
    ||| (0xd7c7 <= x && x <= 0xd7ca)
    ||| (0xd7fc <= x && x <= 0xf8ff)
    ||| (0xfa6e <= x && x <= 0xfa6f)
}

fn is_non_printable_9(x: u32) -> (r: bool)
    ensures
        r == non_printable_9(x as int),
{
    (0xa6f8 <= x && x <= 0xa6ff)
        || (0xa7cb <= x && x <= 0xa7cf)
        || x == 0xa7d2
        || x == 0xa7d4
        || (0xa7da <= x && x <= 0xa7f1)
        || (0xa82d <= x && x <= 0xa82f)
        || (0xa83a <= x && x <= 0xa83f)
        || (0xa878 <= x && x <= 0xa87f)
        || (0xa8c6 <= x && x <= 0xa8cd)
        || (0xa8da <= x && x <= 0xa8df)
        || (0xa954 <= x && x <= 0xa95e)
        || (0xa97d <= x && x <= 0xa97f)
        || x == 0xa9ce
        || (0xa9da <= x && x <= 0xa9dd)
        || x == 0xa9ff
        || (0xaa37 <= x && x <= 0xaa3f)
        || (0xaa4e <= x && x <= 0xaa4f)
        || (0xaa5a <= x && x <= 0xaa5b)
        || (0xaac3 <= x && x <= 0xaada)
        || (0xaaf7 <= x && x <= 0xab00)
        || (0xab07 <= x && x <= 0xab08)
        || (0xab0f <= x && x <= 0xab10)
        || (0xab17 <= x && x <= 0xab1f)
        || x == 0xab27
        || x == 0xab2f
        || (0xab6c <= x && x <= 0xab6f)
        || (0xabee <= x && x <= 0xabef)
        || (0xabfa <= x && x <= 0xabff)
        || (0xd7a4 <= x && x <= 0xd7af)
        || (0xd7c7 <= x && x <= 0xd7ca)
        || (0xd7fc <= x && x <= 0xf8ff)
        || (0xfa6e <= x && x <= 0xfa6f)
}

/// The code points from U+FADA to U+1007F that `str.isprintable` rejects.
pub open spec fn non_printable_10(x: int) -> bool {
    ||| (0xfada <= x && x <= 0xfaff)
    ||| (0xfb07 <= x && x <= 0xfb12)
    ||| (0xfb18 <= x && x <= 0xfb1c)
    ||| x == 0xfb37
    ||| x == 0xfb3d
    ||| x == 0xfb3f
    ||| x == 0xfb42
    ||| x == 0xfb45
    ||| (0xfbc3 <= x && x <= 0xfbd2)
    ||| (0xfd90 <= x && x <= 0xfd91)
    ||| (0xfdc8 <= x && x <= 0xfdce)
    ||| (0xfdd0 <= x && x <= 0xfdef)
    ||| (0xfe1a <= x && x <= 0xfe1f)
    ||| x == 0xfe53
    ||| x == 0xfe67
    ||| (0xfe6c <= x && x <= 0xfe6f)
    ||| x == 0xfe75
    ||| (0xfefd <= x && x <= 0xff00)
    ||| (0xffbf <= x && x <= 0xffc1)
    ||| (0xffc8 <= x && x <= 0xffc9)
    ||| (0xffd0 <= x && x <= 0xffd1)
    ||| (0xffd8 <= x && x <= 0xffd9)
    ||| (0xffdd <= x && x <= 0xffdf)
    ||| x == 0xffe7
    ||| (0xffef <= x && x <= 0xfffb)
    ||| (0xfffe <= x && x <= 0xffff)
    ||| x == 0x1000c
    ||| x == 0x10027
    ||| x == 0x1003b
    ||| x == 0x1003e
    ||| (0x1004e <= x && x <= 0x1004f)
    ||| (0x1005e <= x && x <= 0x1007f)
}

fn is_non_printable_10(x: u32) -> (r: bool)
    ensures
        r == non_printable_10(x as int),
{
    (0xfada <= x && x <= 0xfaff)
        || (0xfb07 <= x && x <= 0xfb12)
        || (0xfb18 <= x && x <= 0xfb1c)
        || x == 0xfb37
        || x == 0xfb3d
        || x == 0xfb3f
        || x == 0xfb42
        || x == 0xfb45
        || (0xfbc3 <= x && x <= 0xfbd2)
        || (0xfd90 <= x && x <= 0xfd91)
        || (0xfdc8 <= x && x <= 0xfdce)
        || (0xfdd0 <= x && x <= 0xfdef)
        || (0xfe1a <= x && x <= 0xfe1f)
        || x == 0xfe53
        || x == 0xfe67
        || (0xfe6c <= x && x <= 0xfe6f)
        || x == 0xfe75
        || (0xfefd <= x && x <= 0xff00)
        || (0xffbf <= x && x <= 0xffc1)
        || (0xffc8 <= x && x <= 0xffc9)
        || (0xffd0 <= x && x <= 0xffd1)
        || (0xffd8 <= x && x <= 0xffd9)
        || (0xffdd <= x && x <= 0xffdf)
        || x == 0xffe7
        || (0xffef <= x && x <= 0xfffb)
        || (0xfffe <= x && x <= 0xffff)
        || x == 0x1000c
        || x == 0x10027
        || x == 0x1003b
        || x == 0x1003e
        || (0x1004e <= x && x <= 0x1004f)
        || (0x1005e <= x && x <= 0x1007f)
}

/// The code points from U+100FB to U+1075F that `str.isprintable` rejects.
pub open spec fn non_printable_11(x: int) -> bool {
    ||| (0x100fb <= x && x <= 0x100ff)
    ||| (0x10103 <= x && x <= 0x10106)
    ||| (0x10134 <= x && x <= 0x10136)
    ||| x == 0x1018f
    ||| (0x1019d <= x && x <= 0x1019f)
    ||| (0x101a1 <= x && x <= 0x101cf)
    ||| (0x101fe <= x && x <= 0x1027f)
    ||| (0x1029d <= x && x <= 0x1029f)
    ||| (0x102d1 <= x && x <= 0x102df)
    ||| (0x102fc <= x && x <= 0x102ff)
    ||| (0x10324 <= x && x <= 0x1032c)
    ||| (0x1034b <= x && x <= 0x1034f)
    ||| (0x1037b <= x && x <= 0x1037f)
    ||| x == 0x1039e
    ||| (0x103c4 <= x && x <= 0x103c7)
    ||| (0x103d6 <= x && x <= 0x103ff)
    ||| (0x1049e <= x && x <= 0x1049f)
    ||| (0x104aa <= x && x <= 0x104af)
    ||| (0x104d4 <= x && x <= 0x104d7)
    ||| (0x104fc <= x && x <= 0x104ff)
    ||| (0x10528 <= x && x <= 0x1052f)
    ||| (0x10564 <= x && x <= 0x1056e)
    ||| x == 0x1057b
    ||| x == 0x1058b
    ||| x == 0x10593
    ||| x == 0x10596
    ||| x == 0x105a2
    ||| x == 0x105b2
    ||| x == 0x105ba
    ||| (0x105bd <= x && x <= 0x105ff)
    ||| (0x10737 <= x && x <= 0x1073f)
    ||| (0x10756 <= x && x <= 0x1075f)
}

fn is_non_printable_11(x: u32) -> (r: bool)
    ensures
        r == non_printable_11(x as int),
{
    (0x100fb <= x && x <= 0x100ff)
        || (0x10103 <= x && x <= 0x10106)
        || (0x10134 <= x && x <= 0x10136)
        || x == 0x1018f
        || (0x1019d <= x && x <= 0x1019f)
        || (0x101a1 <= x && x <= 0x101cf)
        || (0x101fe <= x && x <= 0x1027f)
        || (0x1029d <= x && x <= 0x1029f)
        || (0x102d1 <= x && x <= 0x102df)
        || (0x102fc <= x && x <= 0x102ff)
        || (0x10324 <= x && x <= 0x1032c)
        || (0x1034b <= x && x <= 0x1034f)
        || (0x1037b <= x && x <= 0x1037f)
        || x == 0x1039e
        || (0x103c4 <= x && x <= 0x103c7)
        || (0x103d6 <= x && x <= 0x103ff)
        || (0x1049e <= x && x <= 0x1049f)
        || (0x104aa <= x && x <= 0x104af)
        || (0x104d4 <= x && x <= 0x104d7)
        || (0x104fc <= x && x <= 0x104ff)
        || (0x10528 <= x && x <= 0x1052f)
        || (0x10564 <= x && x <= 0x1056e)
        || x == 0x1057b
        || x == 0x1058b
        || x == 0x10593
        || x == 0x10596
        || x == 0x105a2
        || x == 0x105b2
        || x == 0x105ba
        || (0x105bd <= x && x <= 0x105ff)
        || (0x10737 <= x && x <= 0x1073f)
        || (0x10756 <= x && x <= 0x1075f)
}

/// The code points from U+10768 to U+10B57 that `str.isprintable` rejects.
pub open spec fn non_printable_12(x: int) -> bool {
    ||| (0x10768 <= x && x <= 0x1077f)
    ||| x == 0x10786
    ||| x == 0x107b1
    ||| (0x107bb <= x && x <= 0x107ff)
    ||| (0x10806 <= x && x <= 0x10807)
    ||| x == 0x10809
    ||| x == 0x10836
    ||| (0x10839 <= x && x <= 0x1083b)
    ||| (0x1083d <= x && x <= 0x1083e)
    ||| x == 0x10856
    ||| (0x1089f <= x && x <= 0x108a6)
    ||| (0x108b0 <= x && x <= 0x108df)
    ||| x == 0x108f3
    ||| (0x108f6 <= x && x <= 0x108fa)
    ||| (0x1091c <= x && x <= 0x1091e)
    ||| (0x1093a <= x && x <= 0x1093e)
    ||| (0x10940 <= x && x <= 0x1097f)
    ||| (0x109b8 <= x && x <= 0x109bb)
    ||| (0x109d0 <= x && x <= 0x109d1)
    ||| x == 0x10a04
    ||| (0x10a07 <= x && x <= 0x10a0b)
    ||| x == 0x10a14
    ||| x == 0x10a18
    ||| (0x10a36 <= x && x <= 0x10a37)
    ||| (0x10a3b <= x && x <= 0x10a3e)
    ||| (0x10a49 <= x && x <= 0x10a4f)
    ||| (0x10a59 <= x && x <= 0x10a5f)
    ||| (0x10aa0 <= x && x <= 0x10abf)
    ||| (0x10ae7 <= x && x <= 0x10aea)
    ||| (0x10af7 <= x && x <= 0x10aff)
    ||| (0x10b36 <= x && x <= 0x10b38)
    ||| (0x10b56 <= x && x <= 0x10b57)
}

fn is_non_printable_12(x: u32) -> (r: bool)
    ensures
        r == non_printable_12(x as int),
{
    (0x10768 <= x && x <= 0x1077f)
        || x == 0x10786
        || x == 0x107b1
        || (0x107bb <= x && x <= 0x107ff)
        || (0x10806 <= x && x <= 0x10807)
        || x == 0x10809
        || x == 0x10836
        || (0x10839 <= x && x <= 0x1083b)
        || (0x1083d <= x && x <= 0x1083e)
        || x == 0x10856
        || (0x1089f <= x && x <= 0x108a6)
        || (0x108b0 <= x && x <= 0x108df)
        || x == 0x108f3
        || (0x108f6 <= x && x <= 0x108fa)
        || (0x1091c <= x && x <= 0x1091e)
        || (0x1093a <= x && x <= 0x1093e)
        || (0x10940 <= x && x <= 0x1097f)
        || (0x109b8 <= x && x <= 0x109bb)
        || (0x109d0 <= x && x <= 0x109d1)
        || x == 0x10a04
        || (0x10a07 <= x && x <= 0x10a0b)
        || x == 0x10a14
        || x == 0x10a18
        || (0x10a36 <= x && x <= 0x10a37)
        || (0x10a3b <= x && x <= 0x10a3e)
        || (0x10a49 <= x && x <= 0x10a4f)
        || (0x10a59 <= x && x <= 0x10a5f)
        || (0x10aa0 <= x && x <= 0x10abf)
        || (0x10ae7 <= x && x <= 0x10aea)
        || (0x10af7 <= x && x <= 0x10aff)
        || (0x10b36 <= x && x <= 0x10b38)
        || (0x10b56 <= x && x <= 0x10b57)
}

/// The code points from U+10B73 to U+11287 that `str.isprintable` rejects.
pub open spec fn non_printable_13(x: int) -> bool {
    ||| (0x10b73 <= x && x <= 0x10b77)
    ||| (0x10b92 <= x && x <= 0x10b98)
    ||| (0x10b9d <= x && x <= 0x10ba8)
    ||| (0x10bb0 <= x && x <= 0x10bff)
    ||| (0x10c49 <= x && x <= 0x10c7f)
    ||| (0x10cb3 <= x && x <= 0x10cbf)
    ||| (0x10cf3 <= x && x <= 0x10cf9)
    ||| (0x10d28 <= x && x <= 0x10d2f)
    ||| (0x10d3a <= x && x <= 0x10e5f)
    ||| x == 0x10e7f
    ||| x == 0x10eaa
    ||| (0x10eae <= x && x <= 0x10eaf)
    ||| (0x10eb2 <= x && x <= 0x10eff)
    ||| (0x10f28 <= x && x <= 0x10f2f)
    ||| (0x10f5a <= x && x <= 0x10f6f)
    ||| (0x10f8a <= x && x <= 0x10faf)
    ||| (0x10fcc <= x && x <= 0x10fdf)
    ||| (0x10ff7 <= x && x <= 0x10fff)
    ||| (0x1104e <= x && x <= 0x11051)
    ||| (0x11076 <= x && x <= 0x1107e)
    ||| x == 0x110bd
    ||| (0x110c3 <= x && x <= 0x110cf)
    ||| (0x110e9 <= x && x <= 0x110ef)
    ||| (0x110fa <= x && x <= 0x110ff)
    ||| x == 0x11135
    ||| (0x11148 <= x && x <= 0x1114f)
    ||| (0x11177 <= x && x <= 0x1117f)
    ||| x == 0x111e0
    ||| (0x111f5 <= x && x <= 0x111ff)
    ||| x == 0x11212
    ||| (0x1123f <= x && x <= 0x1127f)
    ||| x == 0x11287
}

fn is_non_printable_13(x: u32) -> (r: bool)
    ensures
        r == non_printable_13(x as int),
{
    (0x10b73 <= x && x <= 0x10b77)
        || (0x10b92 <= x && x <= 0x10b98)
        || (0x10b9d <= x && x <= 0x10ba8)
        || (0x10bb0 <= x && x <= 0x10bff)
        || (0x10c49 <= x && x <= 0x10c7f)
        || (0x10cb3 <= x && x <= 0x10cbf)
        || (0x10cf3 <= x && x <= 0x10cf9)
        || (0x10d28 <= x && x <= 0x10d2f)
        || (0x10d3a <= x && x <= 0x10e5f)
        || x == 0x10e7f
        || x == 0x10eaa
        || (0x10eae <= x && x <= 0x10eaf)
        || (0x10eb2 <= x && x <= 0x10eff)
        || (0x10f28 <= x && x <= 0x10f2f)
        || (0x10f5a <= x && x <= 0x10f6f)
        || (0x10f8a <= x && x <= 0x10faf)
        || (0x10fcc <= x && x <= 0x10fdf)
        || (0x10ff7 <= x && x <= 0x10fff)
        || (0x1104e <= x && x <= 0x11051)
        || (0x11076 <= x && x <= 0x1107e)
        || x == 0x110bd
        || (0x110c3 <= x && x <= 0x110cf)
        || (0x110e9 <= x && x <= 0x110ef)
        || (0x110fa <= x && x <= 0x110ff)
        || x == 0x11135
        || (0x11148 <= x && x <= 0x1114f)
        || (0x11177 <= x && x <= 0x1117f)
        || x == 0x111e0
        || (0x111f5 <= x && x <= 0x111ff)
        || x == 0x11212
        || (0x1123f <= x && x <= 0x1127f)
        || x == 0x11287
}

/// The code points from U+11289 to U+116FF that `str.isprintable` rejects.
pub open spec fn non_printable_14(x: int) -> bool {
    ||| x == 0x11289
    ||| x == 0x1128e
    ||| x == 0x1129e
    ||| (0x112aa <= x && x <= 0x112af)
    ||| (0x112eb <= x && x <= 0x112ef)
    ||| (0x112fa <= x && x <= 0x112ff)
    ||| x == 0x11304
    ||| (0x1130d <= x && x <= 0x1130e)
    ||| (0x11311 <= x && x <= 0x11312)
    ||| x == 0x11329
    ||| x == 0x11331
    ||| x == 0x11334
    ||| x == 0x1133a
    ||| (0x11345 <= x && x <= 0x11346)
    ||| (0x11349 <= x && x <= 0x1134a)
    ||| (0x1134e <= x && x <= 0x1134f)
    ||| (0x11351 <= x && x <= 0x11356)
    ||| (0x11358 <= x && x <= 0x1135c)
    ||| (0x11364 <= x && x <= 0x11365)
    ||| (0x1136d <= x && x <= 0x1136f)
    ||| (0x11375 <= x && x <= 0x113ff)
    ||| x == 0x1145c
    ||| (0x11462 <= x && x <= 0x1147f)
    ||| (0x114c8 <= x && x <= 0x114cf)
    ||| (0x114da <= x && x <= 0x1157f)
    ||| (0x115b6 <= x && x <= 0x115b7)
    ||| (0x115de <= x && x <= 0x115ff)
    ||| (0x11645 <= x && x <= 0x1164f)
    ||| (0x1165a <= x && x <= 0x1165f)
    ||| (0x1166d <= x && x <= 0x1167f)
    ||| (0x116ba <= x && x <= 0x116bf)
    ||| (0x116ca <= x && x <= 0x116ff)
}

fn is_non_printable_14(x: u32) -> (r: bool)
    ensures
        r == non_printable_14(x as int),
{
    x == 0x11289
        || x == 0x1128e
        || x == 0x1129e
        || (0x112aa <= x && x <= 0x112af)
        || (0x112eb <= x && x <= 0x112ef)
        || (0x112fa <= x && x <= 0x112ff)
        || x == 0x11304
        || (0x1130d <= x && x <= 0x1130e)
        || (0x11311 <= x && x <= 0x11312)
        || x == 0x11329
        || x == 0x11331
        || x == 0x11334
        || x == 0x1133a
        || (0x11345 <= x && x <= 0x11346)
        || (0x11349 <= x && x <= 0x1134a)
        || (0x1134e <= x && x <= 0x1134f)
        || (0x11351 <= x && x <= 0x11356)
        || (0x11358 <= x && x <= 0x1135c)
        || (0x11364 <= x && x <= 0x11365)
        || (0x1136d <= x && x <= 0x1136f)
        || (0x11375 <= x && x <= 0x113ff)
        || x == 0x1145c
        || (0x11462 <= x && x <= 0x1147f)
        || (0x114c8 <= x && x <= 0x114cf)
        || (0x114da <= x && x <= 0x1157f)
        || (0x115b6 <= x && x <= 0x115b7)
        || (0x115de <= x && x <= 0x115ff)
        || (0x11645 <= x && x <= 0x1164f)
        || (0x1165a <= x && x <= 0x1165f)
        || (0x1166d <= x && x <= 0x1167f)
        || (0x116ba <= x && x <= 0x116bf)
        || (0x116ca <= x && x <= 0x116ff)
}

/// The code points from U+1171B to U+11D4F that `str.isprintable` rejects.
pub open spec fn non_printable_15(x: int) -> bool {
    ||| (0x1171b <= x && x <= 0x1171c)
    ||| (0x1172c <= x && x <= 0x1172f)
    ||| (0x11747 <= x && x <= 0x117ff)
    ||| (0x1183c <= x && x <= 0x1189f)
    ||| (0x118f3 <= x && x <= 0x118fe)
    ||| (0x11907 <= x && x <= 0x11908)
    ||| (0x1190a <= x && x <= 0x1190b)
    ||| x == 0x11914
    ||| x == 0x11917
    ||| x == 0x11936
    ||| (0x11939 <= x && x <= 0x1193a)
    ||| (0x11947 <= x && x <= 0x1194f)
    ||| (0x1195a <= x && x <= 0x1199f)
    ||| (0x119a8 <= x && x <= 0x119a9)
    ||| (0x119d8 <= x && x <= 0x119d9)
    ||| (0x119e5 <= x && x <= 0x119ff)
    ||| (0x11a48 <= x && x <= 0x11a4f)
    ||| (0x11aa3 <= x && x <= 0x11aaf)
    ||| (0x11af9 <= x && x <= 0x11bff)
    ||| x == 0x11c09
    ||| x == 0x11c37
    ||| (0x11c46 <= x && x <= 0x11c4f)
    ||| (0x11c6d <= x && x <= 0x11c6f)
    ||| (0x11c90 <= x && x <= 0x11c91)
    ||| x == 0x11ca8
    ||| (0x11cb7 <= x && x <= 0x11cff)
    ||| x == 0x11d07
    ||| x == 0x11d0a
    ||| (0x11d37 <= x && x <= 0x11d39)
    ||| x == 0x11d3b
    ||| x == 0x11d3e
    ||| (0x11d48 <= x && x <= 0x11d4f)
}

fn is_non_printable_15(x: u32) -> (r: bool)
    ensures
        r == non_printable_15(x as int),
{
    (0x1171b <= x && x <= 0x1171c)
        || (0x1172c <= x && x <= 0x1172f)
        || (0x11747 <= x && x <= 0x117ff)
        || (0x1183c <= x && x <= 0x1189f)
        || (0x118f3 <= x && x <= 0x118fe)
        || (0x11907 <= x && x <= 0x11908)
        || (0x1190a <= x && x <= 0x1190b)
        || x == 0x11914
        || x == 0x11917
        || x == 0x11936
        || (0x11939 <= x && x <= 0x1193a)
        || (0x11947 <= x && x <= 0x1194f)
        || (0x1195a <= x && x <= 0x1199f)
        || (0x119a8 <= x && x <= 0x119a9)
        || (0x119d8 <= x && x <= 0x119d9)
        || (0x119e5 <= x && x <= 0x119ff)
        || (0x11a48 <= x && x <= 0x11a4f)
        || (0x11aa3 <= x && x <= 0x11aaf)
        || (0x11af9 <= x && x <= 0x11bff)
        || x == 0x11c09
        || x == 0x11c37
        || (0x11c46 <= x && x <= 0x11c4f)
        || (0x11c6d <= x && x <= 0x11c6f)
        || (0x11c90 <= x && x <= 0x11c91)
        || x == 0x11ca8
        || (0x11cb7 <= x && x <= 0x11cff)
        || x == 0x11d07
        || x == 0x11d0a
        || (0x11d37 <= x && x <= 0x11d39)
        || x == 0x11d3b
        || x == 0x11d3e
        || (0x11d48 <= x && x <= 0x11d4f)
}

/// The code points from U+11D5A to U+16F8E that `str.isprintable` rejects.
pub open spec fn non_printable_16(x: int) -> bool {
    ||| (0x11d5a <= x && x <= 0x11d5f)
    ||| x == 0x11d66
    ||| x == 0x11d69
    ||| x == 0x11d8f
    ||| x == 0x11d92
    ||| (0x11d99 <= x && x <= 0x11d9f)
    ||| (0x11daa <= x && x <= 0x11edf)
    ||| (0x11ef9 <= x && x <= 0x11faf)
    ||| (0x11fb1 <= x && x <= 0x11fbf)
    ||| (0x11ff2 <= x && x <= 0x11ffe)
    ||| (0x1239a <= x && x <= 0x123ff)
    ||| x == 0x1246f
    ||| (0x12475 <= x && x <= 0x1247f)
    ||| (0x12544 <= x && x <= 0x12f8f)
    ||| (0x12ff3 <= x && x <= 0x12fff)
    ||| (0x1342f <= x && x <= 0x143ff)
    ||| (0x14647 <= x && x <= 0x167ff)
    ||| (0x16a39 <= x && x <= 0x16a3f)
    ||| x == 0x16a5f
    ||| (0x16a6a <= x && x <= 0x16a6d)
    ||| x == 0x16abf
    ||| (0x16aca <= x && x <= 0x16acf)
    ||| (0x16aee <= x && x <= 0x16aef)
    ||| (0x16af6 <= x && x <= 0x16aff)
    ||| (0x16b46 <= x && x <= 0x16b4f)
    ||| x == 0x16b5a
    ||| x == 0x16b62
    ||| (0x16b78 <= x && x <= 0x16b7c)
    ||| (0x16b90 <= x && x <= 0x16e3f)
    ||| (0x16e9b <= x && x <= 0x16eff)
    ||| (0x16f4b <= x && x <= 0x16f4e)
    ||| (0x16f88 <= x && x <= 0x16f8e)
}

fn is_non_printable_16(x: u32) -> (r: bool)
    ensures
        r == non_printable_16(x as int),
{
    (0x11d5a <= x && x <= 0x11d5f)
        || x == 0x11d66
        || x == 0x11d69
        || x == 0x11d8f
        || x == 0x11d92
        || (0x11d99 <= x && x <= 0x11d9f)
        || (0x11daa <= x && x <= 0x11edf)
        || (0x11ef9 <= x && x <= 0x11faf)
        || (0x11fb1 <= x && x <= 0x11fbf)
        || (0x11ff2 <= x && x <= 0x11ffe)
        || (0x1239a <= x && x <= 0x123ff)
        || x == 0x1246f
        || (0x12475 <= x && x <= 0x1247f)
        || (0x12544 <= x && x <= 0x12f8f)
        || (0x12ff3 <= x && x <= 0x12fff)
        || (0x1342f <= x && x <= 0x143ff)
        || (0x14647 <= x && x <= 0x167ff)
        || (0x16a39 <= x && x <= 0x16a3f)
        || x == 0x16a5f
        || (0x16a6a <= x && x <= 0x16a6d)
        || x == 0x16abf
        || (0x16aca <= x && x <= 0x16acf)
        || (0x16aee <= x && x <= 0x16aef)
        || (0x16af6 <= x && x <= 0x16aff)
        || (0x16b46 <= x && x <= 0x16b4f)
        || x == 0x16b5a
        || x == 0x16b62
        || (0x16b78 <= x && x <= 0x16b7c)
        || (0x16b90 <= x && x <= 0x16e3f)
        || (0x16e9b <= x && x <= 0x16eff)
        || (0x16f4b <= x && x <= 0x16f4e)
        || (0x16f88 <= x && x <= 0x16f8e)
}

/// The code points from U+16FA0 to U+1D4A1 that `str.isprintable` rejects.
pub open spec fn non_printable_17(x: int) -> bool {
    ||| (0x16fa0 <= x && x <= 0x16fdf)
    ||| (0x16fe5 <= x && x <= 0x16fef)
    ||| (0x16ff2 <= x && x <= 0x16fff)
    ||| (0x187f8 <= x && x <= 0x187ff)
    ||| (0x18cd6 <= x && x <= 0x18cff)
    ||| (0x18d09 <= x && x <= 0x1afef)
    ||| x == 0x1aff4
    ||| x == 0x1affc
    ||| x == 0x1afff
    ||| (0x1b123 <= x && x <= 0x1b14f)
    ||| (0x1b153 <= x && x <= 0x1b163)
    ||| (0x1b168 <= x && x <= 0x1b16f)
    ||| (0x1b2fc <= x && x <= 0x1bbff)
    ||| (0x1bc6b <= x && x <= 0x1bc6f)
    ||| (0x1bc7d <= x && x <= 0x1bc7f)
    ||| (0x1bc89 <= x && x <= 0x1bc8f)
    ||| (0x1bc9a <= x && x <= 0x1bc9b)
    ||| (0x1bca0 <= x && x <= 0x1ceff)
    ||| (0x1cf2e <= x && x <= 0x1cf2f)
    ||| (0x1cf47 <= x && x <= 0x1cf4f)
    ||| (0x1cfc4 <= x && x <= 0x1cfff)
    ||| (0x1d0f6 <= x && x <= 0x1d0ff)
    ||| (0x1d127 <= x && x <= 0x1d128)
    ||| (0x1d173 <= x && x <= 0x1d17a)
    ||| (0x1d1eb <= x && x <= 0x1d1ff)
    ||| (0x1d246 <= x && x <= 0x1d2df)
    ||| (0x1d2f4 <= x && x <= 0x1d2ff)
    ||| (0x1d357 <= x && x <= 0x1d35f)
    ||| (0x1d379 <= x && x <= 0x1d3ff)
    ||| x == 0x1d455
    ||| x == 0x1d49d
    ||| (0x1d4a0 <= x && x <= 0x1d4a1)
}

fn is_non_printable_17(x: u32) -> (r: bool)
    ensures
        r == non_printable_17(x as int),
{
    (0x16fa0 <= x && x <= 0x16fdf)
        || (0x16fe5 <= x && x <= 0x16fef)
        || (0x16ff2 <= x && x <= 0x16fff)
        || (0x187f8 <= x && x <= 0x187ff)
        || (0x18cd6 <= x && x <= 0x18cff)
        || (0x18d09 <= x && x <= 0x1afef)
        || x == 0x1aff4
        || x == 0x1affc
        || x == 0x1afff
        || (0x1b123 <= x && x <= 0x1b14f)
        || (0x1b153 <= x && x <= 0x1b163)
        || (0x1b168 <= x && x <= 0x1b16f)
        || (0x1b2fc <= x && x <= 0x1bbff)
        || (0x1bc6b <= x && x <= 0x1bc6f)
        || (0x1bc7d <= x && x <= 0x1bc7f)
        || (0x1bc89 <= x && x <= 0x1bc8f)
        || (0x1bc9a <= x && x <= 0x1bc9b)
        || (0x1bca0 <= x && x <= 0x1ceff)
        || (0x1cf2e <= x && x <= 0x1cf2f)
        || (0x1cf47 <= x && x <= 0x1cf4f)
        || (0x1cfc4 <= x && x <= 0x1cfff)
        || (0x1d0f6 <= x && x <= 0x1d0ff)
        || (0x1d127 <= x && x <= 0x1d128)
        || (0x1d173 <= x && x <= 0x1d17a)
        || (0x1d1eb <= x && x <= 0x1d1ff)
        || (0x1d246 <= x && x <= 0x1d2df)
        || (0x1d2f4 <= x && x <= 0x1d2ff)
        || (0x1d357 <= x && x <= 0x1d35f)
        || (0x1d379 <= x && x <= 0x1d3ff)
        || x == 0x1d455
        || x == 0x1d49d
        || (0x1d4a0 <= x && x <= 0x1d4a1)
}

/// The code points from U+1D4A3 to U+1E2FE that `str.isprintable` rejects.
pub open spec fn non_printable_18(x: int) -> bool {
    ||| (0x1d4a3 <= x && x <= 0x1d4a4)
    ||| (0x1d4a7 <= x && x <= 0x1d4a8)
    ||| x == 0x1d4ad
    ||| x == 0x1d4ba
    ||| x == 0x1d4bc
    ||| x == 0x1d4c4
    ||| x == 0x1d506
    ||| (0x1d50b <= x && x <= 0x1d50c)
    ||| x == 0x1d515
    ||| x == 0x1d51d
    ||| x == 0x1d53a
    ||| x == 0x1d53f
    ||| x == 0x1d545
    ||| (0x1d547 <= x && x <= 0x1d549)
    ||| x == 0x1d551
    ||| (0x1d6a6 <= x && x <= 0x1d6a7)
    ||| (0x1d7cc <= x && x <= 0x1d7cd)
    ||| (0x1da8c <= x && x <= 0x1da9a)
    ||| x == 0x1daa0
    ||| (0x1dab0 <= x && x <= 0x1deff)
    ||| (0x1df1f <= x && x <= 0x1dfff)
    ||| x == 0x1e007
    ||| (0x1e019 <= x && x <= 0x1e01a)
    ||| x == 0x1e022
    ||| x == 0x1e025
    ||| (0x1e02b <= x && x <= 0x1e0ff)
    ||| (0x1e12d <= x && x <= 0x1e12f)
    ||| (0x1e13e <= x && x <= 0x1e13f)
    ||| (0x1e14a <= x && x <= 0x1e14d)
    ||| (0x1e150 <= x && x <= 0x1e28f)
    ||| (0x1e2af <= x && x <= 0x1e2bf)
    ||| (0x1e2fa <= x && x <= 0x1e2fe)
}

fn is_non_printable_18(x: u32) -> (r: bool)
    ensures
        r == non_printable_18(x as int),
{
    (0x1d4a3 <= x && x <= 0x1d4a4)
        || (0x1d4a7 <= x && x <= 0x1d4a8)
        || x == 0x1d4ad
        || x == 0x1d4ba
        || x == 0x1d4bc
        || x == 0x1d4c4
        || x == 0x1d506
        || (0x1d50b <= x && x <= 0x1d50c)
        || x == 0x1d515
        || x == 0x1d51d
        || x == 0x1d53a
        || x == 0x1d53f
        || x == 0x1d545
        || (0x1d547 <= x && x <= 0x1d549)
        || x == 0x1d551
        || (0x1d6a6 <= x && x <= 0x1d6a7)
        || (0x1d7cc <= x && x <= 0x1d7cd)
        || (0x1da8c <= x && x <= 0x1da9a)
        || x == 0x1daa0
        || (0x1dab0 <= x && x <= 0x1deff)
        || (0x1df1f <= x && x <= 0x1dfff)
        || x == 0x1e007
        || (0x1e019 <= x && x <= 0x1e01a)
        || x == 0x1e022
        || x == 0x1e025
        || (0x1e02b <= x && x <= 0x1e0ff)
        || (0x1e12d <= x && x <= 0x1e12f)
        || (0x1e13e <= x && x <= 0x1e13f)
        || (0x1e14a <= x && x <= 0x1e14d)
        || (0x1e150 <= x && x <= 0x1e28f)
        || (0x1e2af <= x && x <= 0x1e2bf)
        || (0x1e2fa <= x && x <= 0x1e2fe)
}

/// The code points from U+1E300 to U+1EE5E that `str.isprintable` rejects.
pub open spec fn non_printable_19(x: int) -> bool {
    ||| (0x1e300 <= x && x <= 0x1e7df)
    ||| x == 0x1e7e7
    ||| x == 0x1e7ec
    ||| x == 0x1e7ef
    ||| x == 0x1e7ff
    ||| (0x1e8c5 <= x && x <= 0x1e8c6)
    ||| (0x1e8d7 <= x && x <= 0x1e8ff)
    ||| (0x1e94c <= x && x <= 0x1e94f)
    ||| (0x1e95a <= x && x <= 0x1e95d)
    ||| (0x1e960 <= x && x <= 0x1ec70)
    ||| (0x1ecb5 <= x && x <= 0x1ed00)
    ||| (0x1ed3e <= x && x <= 0x1edff)
    ||| x == 0x1ee04
    ||| x == 0x1ee20
    ||| x == 0x1ee23
    ||| (0x1ee25 <= x && x <= 0x1ee26)
    ||| x == 0x1ee28
    ||| x == 0x1ee33
    ||| x == 0x1ee38
    ||| x == 0x1ee3a
    ||| (0x1ee3c <= x && x <= 0x1ee41)
    ||| (0x1ee43 <= x && x <= 0x1ee46)
    ||| x == 0x1ee48
    ||| x == 0x1ee4a
    ||| x == 0x1ee4c
    ||| x == 0x1ee50
    ||| x == 0x1ee53
    ||| (0x1ee55 <= x && x <= 0x1ee56)
    ||| x == 0x1ee58
    ||| x == 0x1ee5a
    ||| x == 0x1ee5c
    ||| x == 0x1ee5e
}

fn is_non_printable_19(x: u32) -> (r: bool)
    ensures
        r == non_printable_19(x as int),
{
    (0x1e300 <= x && x <= 0x1e7df)
        || x == 0x1e7e7
        || x == 0x1e7ec
        || x == 0x1e7ef
        || x == 0x1e7ff
        || (0x1e8c5 <= x && x <= 0x1e8c6)
        || (0x1e8d7 <= x && x <= 0x1e8ff)
        || (0x1e94c <= x && x <= 0x1e94f)
        || (0x1e95a <= x && x <= 0x1e95d)
        || (0x1e960 <= x && x <= 0x1ec70)
        || (0x1ecb5 <= x && x <= 0x1ed00)
        || (0x1ed3e <= x && x <= 0x1edff)
        || x == 0x1ee04
        || x == 0x1ee20
        || x == 0x1ee23
        || (0x1ee25 <= x && x <= 0x1ee26)
        || x == 0x1ee28
        || x == 0x1ee33
        || x == 0x1ee38
        || x == 0x1ee3a
        || (0x1ee3c <= x && x <= 0x1ee41)
        || (0x1ee43 <= x && x <= 0x1ee46)
        || x == 0x1ee48
        || x == 0x1ee4a
        || x == 0x1ee4c
        || x == 0x1ee50
        || x == 0x1ee53
        || (0x1ee55 <= x && x <= 0x1ee56)
        || x == 0x1ee58
        || x == 0x1ee5a
        || x == 0x1ee5c
        || x == 0x1ee5e
}

/// The code points from U+1EE60 to U+1F7EF that `str.isprintable` rejects.
pub open spec fn non_printable_20(x: int) -> bool {
    ||| x == 0x1ee60
    ||| x == 0x1ee63
    ||| (0x1ee65 <= x && x <= 0x1ee66)
    ||| x == 0x1ee6b
    ||| x == 0x1ee73
    ||| x == 0x1ee78
    ||| x == 0x1ee7d
    ||| x == 0x1ee7f
    ||| x == 0x1ee8a
    ||| (0x1ee9c <= x && x <= 0x1eea0)
    ||| x == 0x1eea4
    ||| x == 0x1eeaa
    ||| (0x1eebc <= x && x <= 0x1eeef)
    ||| (0x1eef2 <= x && x <= 0x1efff)
    ||| (0x1f02c <= x && x <= 0x1f02f)
    ||| (0x1f094 <= x && x <= 0x1f09f)
    ||| (0x1f0af <= x && x <= 0x1f0b0)
    ||| x == 0x1f0c0
    ||| x == 0x1f0d0
    ||| (0x1f0f6 <= x && x <= 0x1f0ff)
    ||| (0x1f1ae <= x && x <= 0x1f1e5)
    ||| (0x1f203 <= x && x <= 0x1f20f)
    ||| (0x1f23c <= x && x <= 0x1f23f)
    ||| (0x1f249 <= x && x <= 0x1f24f)
    ||| (0x1f252 <= x && x <= 0x1f25f)
    ||| (0x1f266 <= x && x <= 0x1f2ff)
    ||| (0x1f6d8 <= x && x <= 0x1f6dc)
    ||| (0x1f6ed <= x && x <= 0x1f6ef)
    ||| (0x1f6fd <= x && x <= 0x1f6ff)
    ||| (0x1f774 <= x && x <= 0x1f77f)
    ||| (0x1f7d9 <= x && x <= 0x1f7df)
    ||| (0x1f7ec <= x && x <= 0x1f7ef)
}

fn is_non_printable_20(x: u32) -> (r: bool)
    ensures
        r == non_printable_20(x as int),
{
    x == 0x1ee60
        || x == 0x1ee63
        || (0x1ee65 <= x && x <= 0x1ee66)
        || x == 0x1ee6b
        || x == 0x1ee73
        || x == 0x1ee78
        || x == 0x1ee7d
        || x == 0x1ee7f
        || x == 0x1ee8a
        || (0x1ee9c <= x && x <= 0x1eea0)
        || x == 0x1eea4
        || x == 0x1eeaa
        || (0x1eebc <= x && x <= 0x1eeef)
        || (0x1eef2 <= x && x <= 0x1efff)
        || (0x1f02c <= x && x <= 0x1f02f)
        || (0x1f094 <= x && x <= 0x1f09f)
        || (0x1f0af <= x && x <= 0x1f0b0)
        || x == 0x1f0c0
        || x == 0x1f0d0
        || (0x1f0f6 <= x && x <= 0x1f0ff)
        || (0x1f1ae <= x && x <= 0x1f1e5)
        || (0x1f203 <= x && x <= 0x1f20f)
        || (0x1f23c <= x && x <= 0x1f23f)
        || (0x1f249 <= x && x <= 0x1f24f)
        || (0x1f252 <= x && x <= 0x1f25f)
        || (0x1f266 <= x && x <= 0x1f2ff)
        || (0x1f6d8 <= x && x <= 0x1f6dc)
        || (0x1f6ed <= x && x <= 0x1f6ef)
        || (0x1f6fd <= x && x <= 0x1f6ff)
        || (0x1f774 <= x && x <= 0x1f77f)
        || (0x1f7d9 <= x && x <= 0x1f7df)
        || (0x1f7ec <= x && x <= 0x1f7ef)
}

/// The code points from U+1F7F1 to U+10FFFF that `str.isprintable` rejects.
pub open spec fn non_printable_21(x: int) -> bool {
    ||| (0x1f7f1 <= x && x <= 0x1f7ff)
    ||| (0x1f80c <= x && x <= 0x1f80f)
    ||| (0x1f848 <= x && x <= 0x1f84f)
    ||| (0x1f85a <= x && x <= 0x1f85f)
    ||| (0x1f888 <= x && x <= 0x1f88f)
    ||| (0x1f8ae <= x && x <= 0x1f8af)
    ||| (0x1f8b2 <= x && x <= 0x1f8ff)
    ||| (0x1fa54 <= x && x <= 0x1fa5f)
    ||| (0x1fa6e <= x && x <= 0x1fa6f)
    ||| (0x1fa75 <= x && x <= 0x1fa77)
    ||| (0x1fa7d <= x && x <= 0x1fa7f)
    ||| (0x1fa87 <= x && x <= 0x1fa8f)
    ||| (0x1faad <= x && x <= 0x1faaf)
    ||| (0x1fabb <= x && x <= 0x1fabf)
    ||| (0x1fac6 <= x && x <= 0x1facf)
    ||| (0x1fada <= x && x <= 0x1fadf)
    ||| (0x1fae8 <= x && x <= 0x1faef)
    ||| (0x1faf7 <= x && x <= 0x1faff)
    ||| x == 0x1fb93
    ||| (0x1fbcb <= x && x <= 0x1fbef)
    ||| (0x1fbfa <= x && x <= 0x1ffff)
    ||| (0x2a6e0 <= x && x <= 0x2a6ff)
    ||| (0x2b739 <= x && x <= 0x2b73f)
    ||| (0x2b81e <= x && x <= 0x2b81f)
    ||| (0x2cea2 <= x && x <= 0x2ceaf)
    ||| (0x2ebe1 <= x && x <= 0x2f7ff)
    ||| (0x2fa1e <= x && x <= 0x2ffff)
    ||| (0x3134b <= x && x <= 0xe00ff)
    ||| (0xe01f0 <= x && x <= 0x10ffff)
}

fn is_non_printable_21(x: u32) -> (r: bool)
    ensures
        r == non_printable_21(x as int),
{
    (0x1f7f1 <= x && x <= 0x1f7ff)
        || (0x1f80c <= x && x <= 0x1f80f)
        || (0x1f848 <= x && x <= 0x1f84f)
        || (0x1f85a <= x && x <= 0x1f85f)
        || (0x1f888 <= x && x <= 0x1f88f)
        || (0x1f8ae <= x && x <= 0x1f8af)
        || (0x1f8b2 <= x && x <= 0x1f8ff)
        || (0x1fa54 <= x && x <= 0x1fa5f)
        || (0x1fa6e <= x && x <= 0x1fa6f)
        || (0x1fa75 <= x && x <= 0x1fa77)
        || (0x1fa7d <= x && x <= 0x1fa7f)
        || (0x1fa87 <= x && x <= 0x1fa8f)
        || (0x1faad <= x && x <= 0x1faaf)
        || (0x1fabb <= x && x <= 0x1fabf)
        || (0x1fac6 <= x && x <= 0x1facf)
        || (0x1fada <= x && x <= 0x1fadf)
        || (0x1fae8 <= x && x <= 0x1faef)
        || (0x1faf7 <= x && x <= 0x1faff)
        || x == 0x1fb93
        || (0x1fbcb <= x && x <= 0x1fbef)
        || (0x1fbfa <= x && x <= 0x1ffff)
        || (0x2a6e0 <= x && x <= 0x2a6ff)
        || (0x2b739 <= x && x <= 0x2b73f)
        || (0x2b81e <= x && x <= 0x2b81f)
        || (0x2cea2 <= x && x <= 0x2ceaf)
        || (0x2ebe1 <= x && x <= 0x2f7ff)
        || (0x2fa1e <= x && x <= 0x2ffff)
        || (0x3134b <= x && x <= 0xe00ff)
        || (0xe01f0 <= x && x <= 0x10ffff)
}

} // verus!
