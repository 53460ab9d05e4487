//! Fixed magic multiplier constants, one per square, for the bishop and the
//! rook lookup tables. Their fitness is re-checked while the tables are
//! built, so nothing is assumed of the values themselves.
use vstd::prelude::*;

verus! {

/// The 64 bishop magic multipliers, as a spec value.
pub open spec fn bishop_magic_seq() -> Seq<u64> {
    seq![
        0x0008100080840080, 0x000401a802008120, 0x4810110461090000, 0x0808084100020402,
        0x00020211010108a0, 0x1012023220410009, 0x00020201a0880918, 0x0403858048124002,
        0x200008a10c008600, 0x8010100228010030, 0x0000042124010200, 0x0100082050405001,
        0x3809084840a12410, 0x00c1111108400810, 0x1100040434020800, 0x8194208211412008,
        0x10080a0520340431, 0x0008000388010400, 0x0010844044004040, 0x2008000420202400,
        0x1024024210220900, 0x0340400200500400, 0x4001044208028220, 0x0040800042209021,
        0x0002404020a89208, 0x08021101081000b2, 0x3200480024080110, 0x0602008008008002,
        0x002009000e004200, 0x0041020005080104, 0x42020400a2210110, 0x8620842006010404,
        0x00d002521a209420, 0x0201080200081080, 0x0080211000010408, 0x0802600802210104,
        0x0040002020220081, 0x1064040420441000, 0x0c01340082440210, 0x1101020222020112,
        0x2408048444152000, 0x0009011050640200, 0x0008084410000200, 0xc800104208000080,
        0x0090012012000300, 0x8401200084802900, 0x0310100151040040, 0x0008020400480028,
        0x101c909008200040, 0x1041040084840000, 0x0080048088210540, 0x2000e00420880c01,
        0xc400204022821800, 0x1044206401da0000, 0x050820016c010000, 0x2020082101123102,
        0x0002020504024200, 0x0804508201100208, 0x082000084200d000, 0x6008300054420220,
        0x0040810010202200, 0x0004808424580202, 0x4010902002909205, 0x44400820a4004044,
    ]
}

/// The 64 rook magic multipliers, as a spec value.
pub open spec fn rook_magic_seq() -> Seq<u64> {
    seq![
        0x0200108021004200, 0x0040002000100044, 0x4080081000200082, 0x0580100004280280,
        0x0280080080020400, 0x6080020004008001, 0x2100010040820004, 0x0080102880014500,
        0x0010800080400020, 0x2000402000401000, 0x088280100080a005, 0x1082001200440820,
        0x4805001048030004, 0x2802800201800400, 0x0028800100800200, 0x3006000240810e04,
        0x0000208000804000, 0x3000818040006000, 0x0040808020001000, 0x0200828008001000,
        0x1004008080040800, 0x8012008080040002, 0x0004040081100802, 0x0800020000840061,
        0x1100800080204000, 0x0400400280200081, 0x0000200080801000, 0x8e80080080100080,
        0x4004008180042801, 0x1004004040020100, 0x0022000200444108, 0x0208408200004104,
        0x8040400022800080, 0x0900802000804000, 0x2000801000802004, 0x0000801000800800,
        0x0800080080800400, 0x0002040080800200, 0x9401000401000200, 0x04d9090446000084,
        0x40e0224000828000, 0x1301004000850020, 0x0890200041010010, 0x0a10201001010008,
        0x8604008008008004, 0x0241000804010002, 0x0413010002008080, 0x3000008400420001,
        0x20c0002a50800080, 0x0000200040048880, 0x1020004010080040, 0x0018100100200900,
        0x4018000882040080, 0x0040800400020080, 0x0208028108100400, 0x065020844c010200,
        0x0000800028550041, 0x2002204a10820102, 0x0000420900200033, 0x000a042009011001,
        0x4002000411200802, 0x8109000400020801, 0x0080024810012084, 0x4238010ea08c0042,
    ]
}

/// The 64 bishop magic multipliers, indexed by square.
pub fn bishop_magic_numbers() -> (v: Vec<u64>)
    ensures
        v@ == bishop_magic_seq(),
        v@.len() == 64,
{
    let v: Vec<u64> = vec![
        0x0008100080840080, 0x000401a802008120, 0x4810110461090000, 0x0808084100020402,
        0x00020211010108a0, 0x1012023220410009, 0x00020201a0880918, 0x0403858048124002,
        0x200008a10c008600, 0x8010100228010030, 0x0000042124010200, 0x0100082050405001,
        0x3809084840a12410, 0x00c1111108400810, 0x1100040434020800, 0x8194208211412008,
        0x10080a0520340431, 0x0008000388010400, 0x0010844044004040, 0x2008000420202400,
        0x1024024210220900, 0x0340400200500400, 0x4001044208028220, 0x0040800042209021,
        0x0002404020a89208, 0x08021101081000b2, 0x3200480024080110, 0x0602008008008002,
        0x002009000e004200, 0x0041020005080104, 0x42020400a2210110, 0x8620842006010404,
        0x00d002521a209420, 0x0201080200081080, 0x0080211000010408, 0x0802600802210104,
        0x0040002020220081, 0x1064040420441000, 0x0c01340082440210, 0x1101020222020112,
        0x2408048444152000, 0x0009011050640200, 0x0008084410000200, 0xc800104208000080,
        0x0090012012000300, 0x8401200084802900, 0x0310100151040040, 0x0008020400480028,
        0x101c909008200040, 0x1041040084840000, 0x0080048088210540, 0x2000e00420880c01,
        0xc400204022821800, 0x1044206401da0000, 0x050820016c010000, 0x2020082101123102,
        0x0002020504024200, 0x0804508201100208, 0x082000084200d000, 0x6008300054420220,
        0x0040810010202200, 0x0004808424580202, 0x4010902002909205, 0x44400820a4004044,
    ];
    proof {
        assert(v@ =~= bishop_magic_seq());
    }
    v
}

/// The 64 rook magic multipliers, indexed by square.
pub fn rook_magic_numbers() -> (v: Vec<u64>)
    ensures
        v@ == rook_magic_seq(),
        v@.len() == 64,
{
    let v: Vec<u64> = vec![
        0x0200108021004200, 0x0040002000100044, 0x4080081000200082, 0x0580100004280280,
        0x0280080080020400, 0x6080020004008001, 0x2100010040820004, 0x0080102880014500,
        0x0010800080400020, 0x2000402000401000, 0x088280100080a005, 0x1082001200440820,
        0x4805001048030004, 0x2802800201800400, 0x0028800100800200, 0x3006000240810e04,
        0x0000208000804000, 0x3000818040006000, 0x0040808020001000, 0x0200828008001000,
        0x1004008080040800, 0x8012008080040002, 0x0004040081100802, 0x0800020000840061,
        0x1100800080204000, 0x0400400280200081, 0x0000200080801000, 0x8e80080080100080,
        0x4004008180042801, 0x1004004040020100, 0x0022000200444108, 0x0208408200004104,
        0x8040400022800080, 0x0900802000804000, 0x2000801000802004, 0x0000801000800800,
        0x0800080080800400, 0x0002040080800200, 0x9401000401000200, 0x04d9090446000084,
        0x40e0224000828000, 0x1301004000850020, 0x0890200041010010, 0x0a10201001010008,
        0x8604008008008004, 0x0241000804010002, 0x0413010002008080, 0x3000008400420001,
        0x20c0002a50800080, 0x0000200040048880, 0x1020004010080040, 0x0018100100200900,
        0x4018000882040080, 0x0040800400020080, 0x0208028108100400, 0x065020844c010200,
        0x0000800028550041, 0x2002204a10820102, 0x0000420900200033, 0x000a042009011001,
        0x4002000411200802, 0x8109000400020801, 0x0080024810012084, 0x4238010ea08c0042,
    ];
    proof {
        assert(v@ =~= rook_magic_seq());
    }
    v
}

} // verus!
