//! What the checksum is made of, and what it is of longer streams.
use vstd::prelude::*;

use crate::isaac_crc::{crc_register, isaac_crc, ISAAC_CRC_TABLE};

verus! {

/// What a bit of an index contributes to an entry of the table.
pub open spec fn share(index: u8, bit: u8, value: u32) -> u32 {
    if (index >> bit) & 1 == 1 {
        value
    } else {
        0
    }
}

/// The entry of an index: what its eight bits contribute, added without carry.
pub open spec fn entry_for_bits(index: u8) -> u32 {
    share(index, 0, 0x0907_3096) ^ share(index, 1, 0x120e_612c)
        ^ share(index, 2, 0xff6d_c419) ^ share(index, 3, 0xfedb_8832)
        ^ share(index, 4, 0xfdb7_1064) ^ share(index, 5, 0xfb6e_20c8)
        ^ share(index, 6, 0xf6dc_4190) ^ share(index, 7, 0xedb8_8320)
}

proof fn entries_from_0(index: u8)
    requires
        0 <= index < 32,
    ensures
        ISAAC_CRC_TABLE@[index as int] == entry_for_bits(index),
{
    let entry = ISAAC_CRC_TABLE@[index as int];
    assert(index == 0 ==> entry == 0x0000_0000);
    assert(index == 1 ==> entry == 0x0907_3096);
    assert(index == 2 ==> entry == 0x120e_612c);
    assert(index == 3 ==> entry == 0x1b09_51ba);
    assert(index == 4 ==> entry == 0xff6d_c419);
    assert(index == 5 ==> entry == 0xf66a_f48f);
    assert(index == 6 ==> entry == 0xed63_a535);
    assert(index == 7 ==> entry == 0xe464_95a3);
    assert(index == 8 ==> entry == 0xfedb_8832);
    assert(index == 9 ==> entry == 0xf7dc_b8a4);
    assert(index == 10 ==> entry == 0xecd5_e91e);
    assert(index == 11 ==> entry == 0xe5d2_d988);
    assert(index == 12 ==> entry == 0x01b6_4c2b);
    assert(index == 13 ==> entry == 0x08b1_7cbd);
    assert(index == 14 ==> entry == 0x13b8_2d07);
    assert(index == 15 ==> entry == 0x1abf_1d91);
    assert(index == 16 ==> entry == 0xfdb7_1064);
    assert(index == 17 ==> entry == 0xf4b0_20f2);
    assert(index == 18 ==> entry == 0xefb9_7148);
    assert(index == 19 ==> entry == 0xe6be_41de);
    assert(index == 20 ==> entry == 0x02da_d47d);
    assert(index == 21 ==> entry == 0x0bdd_e4eb);
    assert(index == 22 ==> entry == 0x10d4_b551);
    assert(index == 23 ==> entry == 0x19d3_85c7);
    assert(index == 24 ==> entry == 0x036c_9856);
    assert(index == 25 ==> entry == 0x0a6b_a8c0);
    assert(index == 26 ==> entry == 0x1162_f97a);
    assert(index == 27 ==> entry == 0x1865_c9ec);
    assert(index == 28 ==> entry == 0xfc01_5c4f);
    assert(index == 29 ==> entry == 0xf506_6cd9);
    assert(index == 30 ==> entry == 0xee0f_3d63);
    assert(index == 31 ==> entry == 0xe708_0df5);
    assert(entry == (if (index >> 0u8) & 1 == 1 { 0x0907_3096u32 } else { 0 })
        ^ (if (index >> 1u8) & 1 == 1 { 0x120e_612cu32 } else { 0 })
        ^ (if (index >> 2u8) & 1 == 1 { 0xff6d_c419u32 } else { 0 })
        ^ (if (index >> 3u8) & 1 == 1 { 0xfedb_8832u32 } else { 0 })
        ^ (if (index >> 4u8) & 1 == 1 { 0xfdb7_1064u32 } else { 0 })
        ^ (if (index >> 5u8) & 1 == 1 { 0xfb6e_20c8u32 } else { 0 })
        ^ (if (index >> 6u8) & 1 == 1 { 0xf6dc_4190u32 } else { 0 })
        ^ (if (index >> 7u8) & 1 == 1 { 0xedb8_8320u32 } else { 0 })) by (bit_vector)
        requires
            0 <= index,
            index < 32,
            index == 0 ==> entry == 0x0000_0000,
            index == 1 ==> entry == 0x0907_3096,
            index == 2 ==> entry == 0x120e_612c,
            index == 3 ==> entry == 0x1b09_51ba,
            index == 4 ==> entry == 0xff6d_c419,
            index == 5 ==> entry == 0xf66a_f48f,
            index == 6 ==> entry == 0xed63_a535,
            index == 7 ==> entry == 0xe464_95a3,
            index == 8 ==> entry == 0xfedb_8832,
            index == 9 ==> entry == 0xf7dc_b8a4,
            index == 10 ==> entry == 0xecd5_e91e,
            index == 11 ==> entry == 0xe5d2_d988,
            index == 12 ==> entry == 0x01b6_4c2b,
            index == 13 ==> entry == 0x08b1_7cbd,
            index == 14 ==> entry == 0x13b8_2d07,
            index == 15 ==> entry == 0x1abf_1d91,
            index == 16 ==> entry == 0xfdb7_1064,
            index == 17 ==> entry == 0xf4b0_20f2,
            index == 18 ==> entry == 0xefb9_7148,
            index == 19 ==> entry == 0xe6be_41de,
            index == 20 ==> entry == 0x02da_d47d,
            index == 21 ==> entry == 0x0bdd_e4eb,
            index == 22 ==> entry == 0x10d4_b551,
            index == 23 ==> entry == 0x19d3_85c7,
            index == 24 ==> entry == 0x036c_9856,
            index == 25 ==> entry == 0x0a6b_a8c0,
            index == 26 ==> entry == 0x1162_f97a,
            index == 27 ==> entry == 0x1865_c9ec,
            index == 28 ==> entry == 0xfc01_5c4f,
            index == 29 ==> entry == 0xf506_6cd9,
            index == 30 ==> entry == 0xee0f_3d63,
            index == 31 ==> entry == 0xe708_0df5,
    ;
}

proof fn entries_from_32(index: u8)
    requires
        32 <= index < 64,
    ensures
        ISAAC_CRC_TABLE@[index as int] == entry_for_bits(index),
{
    let entry = ISAAC_CRC_TABLE@[index as int];
    assert(index == 32 ==> entry == 0xfb6e_20c8);
    assert(index == 33 ==> entry == 0xf269_105e);
    assert(index == 34 ==> entry == 0xe960_41e4);
    assert(index == 35 ==> entry == 0xe067_7172);
    assert(index == 36 ==> entry == 0x0403_e4d1);
    assert(index == 37 ==> entry == 0x0d04_d447);
    assert(index == 38 ==> entry == 0x160d_85fd);
    assert(index == 39 ==> entry == 0x1f0a_b56b);
    assert(index == 40 ==> entry == 0x05b5_a8fa);
    assert(index == 41 ==> entry == 0x0cb2_986c);
    assert(index == 42 ==> entry == 0x17bb_c9d6);
    assert(index == 43 ==> entry == 0x1ebc_f940);
    assert(index == 44 ==> entry == 0xfad8_6ce3);
    assert(index == 45 ==> entry == 0xf3df_5c75);
    assert(index == 46 ==> entry == 0xe8d6_0dcf);
    assert(index == 47 ==> entry == 0xe1d1_3d59);
    assert(index == 48 ==> entry == 0x06d9_30ac);
    assert(index == 49 ==> entry == 0x0fde_003a);
    assert(index == 50 ==> entry == 0x14d7_5180);
    assert(index == 51 ==> entry == 0x1dd0_6116);
    assert(index == 52 ==> entry == 0xf9b4_f4b5);
    assert(index == 53 ==> entry == 0xf0b3_c423);
    assert(index == 54 ==> entry == 0xebba_9599);
    assert(index == 55 ==> entry == 0xe2bd_a50f);
    assert(index == 56 ==> entry == 0xf802_b89e);
    assert(index == 57 ==> entry == 0xf105_8808);
    assert(index == 58 ==> entry == 0xea0c_d9b2);
    assert(index == 59 ==> entry == 0xe30b_e924);
    assert(index == 60 ==> entry == 0x076f_7c87);
    assert(index == 61 ==> entry == 0x0e68_4c11);
    assert(index == 62 ==> entry == 0x1561_1dab);
    assert(index == 63 ==> entry == 0x1c66_2d3d);
    assert(entry == (if (index >> 0u8) & 1 == 1 { 0x0907_3096u32 } else { 0 })
        ^ (if (index >> 1u8) & 1 == 1 { 0x120e_612cu32 } else { 0 })
        ^ (if (index >> 2u8) & 1 == 1 { 0xff6d_c419u32 } else { 0 })
        ^ (if (index >> 3u8) & 1 == 1 { 0xfedb_8832u32 } else { 0 })
        ^ (if (index >> 4u8) & 1 == 1 { 0xfdb7_1064u32 } else { 0 })
        ^ (if (index >> 5u8) & 1 == 1 { 0xfb6e_20c8u32 } else { 0 })
        ^ (if (index >> 6u8) & 1 == 1 { 0xf6dc_4190u32 } else { 0 })
        ^ (if (index >> 7u8) & 1 == 1 { 0xedb8_8320u32 } else { 0 })) by (bit_vector)
        requires
            32 <= index,
            index < 64,
            index == 32 ==> entry == 0xfb6e_20c8,
            index == 33 ==> entry == 0xf269_105e,
            index == 34 ==> entry == 0xe960_41e4,
            index == 35 ==> entry == 0xe067_7172,
            index == 36 ==> entry == 0x0403_e4d1,
            index == 37 ==> entry == 0x0d04_d447,
            index == 38 ==> entry == 0x160d_85fd,
            index == 39 ==> entry == 0x1f0a_b56b,
            index == 40 ==> entry == 0x05b5_a8fa,
            index == 41 ==> entry == 0x0cb2_986c,
            index == 42 ==> entry == 0x17bb_c9d6,
            index == 43 ==> entry == 0x1ebc_f940,
            index == 44 ==> entry == 0xfad8_6ce3,
            index == 45 ==> entry == 0xf3df_5c75,
            index == 46 ==> entry == 0xe8d6_0dcf,
            index == 47 ==> entry == 0xe1d1_3d59,
            index == 48 ==> entry == 0x06d9_30ac,
            index == 49 ==> entry == 0x0fde_003a,
            index == 50 ==> entry == 0x14d7_5180,
            index == 51 ==> entry == 0x1dd0_6116,
            index == 52 ==> entry == 0xf9b4_f4b5,
            index == 53 ==> entry == 0xf0b3_c423,
            index == 54 ==> entry == 0xebba_9599,
            index == 55 ==> entry == 0xe2bd_a50f,
            index == 56 ==> entry == 0xf802_b89e,
            index == 57 ==> entry == 0xf105_8808,
            index == 58 ==> entry == 0xea0c_d9b2,
            index == 59 ==> entry == 0xe30b_e924,
            index == 60 ==> entry == 0x076f_7c87,
            index == 61 ==> entry == 0x0e68_4c11,
            index == 62 ==> entry == 0x1561_1dab,
            index == 63 ==> entry == 0x1c66_2d3d,
    ;
}

proof fn entries_from_64(index: u8)
    requires
        64 <= index < 96,
    ensures
        ISAAC_CRC_TABLE@[index as int] == entry_for_bits(index),
{
    let entry = ISAAC_CRC_TABLE@[index as int];
    assert(index == 64 ==> entry == 0xf6dc_4190);
    assert(index == 65 ==> entry == 0xffdb_7106);
    assert(index == 66 ==> entry == 0xe4d2_20bc);
    assert(index == 67 ==> entry == 0xedd5_102a);
    assert(index == 68 ==> entry == 0x09b1_8589);
    assert(index == 69 ==> entry == 0x00b6_b51f);
    assert(index == 70 ==> entry == 0x1bbf_e4a5);
    assert(index == 71 ==> entry == 0x12b8_d433);
    assert(index == 72 ==> entry == 0x0807_c9a2);
    assert(index == 73 ==> entry == 0x0100_f934);
    assert(index == 74 ==> entry == 0x1a09_a88e);
    assert(index == 75 ==> entry == 0x130e_9818);
    assert(index == 76 ==> entry == 0xf76a_0dbb);
    assert(index == 77 ==> entry == 0xfe6d_3d2d);
    assert(index == 78 ==> entry == 0xe564_6c97);
    assert(index == 79 ==> entry == 0xec63_5c01);
    assert(index == 80 ==> entry == 0x0b6b_51f4);
    assert(index == 81 ==> entry == 0x026c_6162);
    assert(index == 82 ==> entry == 0x1965_30d8);
    assert(index == 83 ==> entry == 0x1062_004e);
    assert(index == 84 ==> entry == 0xf406_95ed);
    assert(index == 85 ==> entry == 0xfd01_a57b);
    assert(index == 86 ==> entry == 0xe608_f4c1);
    assert(index == 87 ==> entry == 0xef0f_c457);
    assert(index == 88 ==> entry == 0xf5b0_d9c6);
    assert(index == 89 ==> entry == 0xfcb7_e950);
    assert(index == 90 ==> entry == 0xe7be_b8ea);
    assert(index == 91 ==> entry == 0xeeb9_887c);
    assert(index == 92 ==> entry == 0x0add_1ddf);
    assert(index == 93 ==> entry == 0x03da_2d49);
    assert(index == 94 ==> entry == 0x18d3_7cf3);
    assert(index == 95 ==> entry == 0x11d4_4c65);
    assert(entry == (if (index >> 0u8) & 1 == 1 { 0x0907_3096u32 } else { 0 })
        ^ (if (index >> 1u8) & 1 == 1 { 0x120e_612cu32 } else { 0 })
        ^ (if (index >> 2u8) & 1 == 1 { 0xff6d_c419u32 } else { 0 })
        ^ (if (index >> 3u8) & 1 == 1 { 0xfedb_8832u32 } else { 0 })
        ^ (if (index >> 4u8) & 1 == 1 { 0xfdb7_1064u32 } else { 0 })
        ^ (if (index >> 5u8) & 1 == 1 { 0xfb6e_20c8u32 } else { 0 })
        ^ (if (index >> 6u8) & 1 == 1 { 0xf6dc_4190u32 } else { 0 })
        ^ (if (index >> 7u8) & 1 == 1 { 0xedb8_8320u32 } else { 0 })) by (bit_vector)
        requires
            64 <= index,
            index < 96,
            index == 64 ==> entry == 0xf6dc_4190,
            index == 65 ==> entry == 0xffdb_7106,
            index == 66 ==> entry == 0xe4d2_20bc,
            index == 67 ==> entry == 0xedd5_102a,
            index == 68 ==> entry == 0x09b1_8589,
            index == 69 ==> entry == 0x00b6_b51f,
            index == 70 ==> entry == 0x1bbf_e4a5,
            index == 71 ==> entry == 0x12b8_d433,
            index == 72 ==> entry == 0x0807_c9a2,
            index == 73 ==> entry == 0x0100_f934,
            index == 74 ==> entry == 0x1a09_a88e,
            index == 75 ==> entry == 0x130e_9818,
            index == 76 ==> entry == 0xf76a_0dbb,
            index == 77 ==> entry == 0xfe6d_3d2d,
            index == 78 ==> entry == 0xe564_6c97,
            index == 79 ==> entry == 0xec63_5c01,
            index == 80 ==> entry == 0x0b6b_51f4,
            index == 81 ==> entry == 0x026c_6162,
            index == 82 ==> entry == 0x1965_30d8,
            index == 83 ==> entry == 0x1062_004e,
            index == 84 ==> entry == 0xf406_95ed,
            index == 85 ==> entry == 0xfd01_a57b,
            index == 86 ==> entry == 0xe608_f4c1,
            index == 87 ==> entry == 0xef0f_c457,
            index == 88 ==> entry == 0xf5b0_d9c6,
            index == 89 ==> entry == 0xfcb7_e950,
            index == 90 ==> entry == 0xe7be_b8ea,
            index == 91 ==> entry == 0xeeb9_887c,
            index == 92 ==> entry == 0x0add_1ddf,
            index == 93 ==> entry == 0x03da_2d49,
            index == 94 ==> entry == 0x18d3_7cf3,
            index == 95 ==> entry == 0x11d4_4c65,
    ;
}

proof fn entries_from_96(index: u8)
    requires
        96 <= index < 128,
    ensures
        ISAAC_CRC_TABLE@[index as int] == entry_for_bits(index),
{
    let entry = ISAAC_CRC_TABLE@[index as int];
    assert(index == 96 ==> entry == 0x0db2_6158);
    assert(index == 97 ==> entry == 0x04b5_51ce);
    assert(index == 98 ==> entry == 0x1fbc_0074);
    assert(index == 99 ==> entry == 0x16bb_30e2);
    assert(index == 100 ==> entry == 0xf2df_a541);
    assert(index == 101 ==> entry == 0xfbd8_95d7);
    assert(index == 102 ==> entry == 0xe0d1_c46d);
    assert(index == 103 ==> entry == 0xe9d6_f4fb);
    assert(index == 104 ==> entry == 0xf369_e96a);
    assert(index == 105 ==> entry == 0xfa6e_d9fc);
    assert(index == 106 ==> entry == 0xe167_8846);
    assert(index == 107 ==> entry == 0xe860_b8d0);
    assert(index == 108 ==> entry == 0x0c04_2d73);
    assert(index == 109 ==> entry == 0x0503_1de5);
    assert(index == 110 ==> entry == 0x1e0a_4c5f);
    assert(index == 111 ==> entry == 0x170d_7cc9);
    assert(index == 112 ==> entry == 0xf005_713c);
    assert(index == 113 ==> entry == 0xf902_41aa);
    assert(index == 114 ==> entry == 0xe20b_1010);
    assert(index == 115 ==> entry == 0xeb0c_2086);
    assert(index == 116 ==> entry == 0x0f68_b525);
    assert(index == 117 ==> entry == 0x066f_85b3);
    assert(index == 118 ==> entry == 0x1d66_d409);
    assert(index == 119 ==> entry == 0x1461_e49f);
    assert(index == 120 ==> entry == 0x0ede_f90e);
    assert(index == 121 ==> entry == 0x07d9_c998);
    assert(index == 122 ==> entry == 0x1cd0_9822);
    assert(index == 123 ==> entry == 0x15d7_a8b4);
    assert(index == 124 ==> entry == 0xf1b3_3d17);
    assert(index == 125 ==> entry == 0xf8b4_0d81);
    assert(index == 126 ==> entry == 0xe3bd_5c3b);
    assert(index == 127 ==> entry == 0xeaba_6cad);
    assert(entry == (if (index >> 0u8) & 1 == 1 { 0x0907_3096u32 } else { 0 })
        ^ (if (index >> 1u8) & 1 == 1 { 0x120e_612cu32 } else { 0 })
        ^ (if (index >> 2u8) & 1 == 1 { 0xff6d_c419u32 } else { 0 })
        ^ (if (index >> 3u8) & 1 == 1 { 0xfedb_8832u32 } else { 0 })
        ^ (if (index >> 4u8) & 1 == 1 { 0xfdb7_1064u32 } else { 0 })
        ^ (if (index >> 5u8) & 1 == 1 { 0xfb6e_20c8u32 } else { 0 })
        ^ (if (index >> 6u8) & 1 == 1 { 0xf6dc_4190u32 } else { 0 })
        ^ (if (index >> 7u8) & 1 == 1 { 0xedb8_8320u32 } else { 0 })) by (bit_vector)
        requires
            96 <= index,
            index < 128,
            index == 96 ==> entry == 0x0db2_6158,
            index == 97 ==> entry == 0x04b5_51ce,
            index == 98 ==> entry == 0x1fbc_0074,
            index == 99 ==> entry == 0x16bb_30e2,
            index == 100 ==> entry == 0xf2df_a541,
            index == 101 ==> entry == 0xfbd8_95d7,
            index == 102 ==> entry == 0xe0d1_c46d,
            index == 103 ==> entry == 0xe9d6_f4fb,
            index == 104 ==> entry == 0xf369_e96a,
            index == 105 ==> entry == 0xfa6e_d9fc,
            index == 106 ==> entry == 0xe167_8846,
            index == 107 ==> entry == 0xe860_b8d0,
            index == 108 ==> entry == 0x0c04_2d73,
            index == 109 ==> entry == 0x0503_1de5,
            index == 110 ==> entry == 0x1e0a_4c5f,
            index == 111 ==> entry == 0x170d_7cc9,
            index == 112 ==> entry == 0xf005_713c,
            index == 113 ==> entry == 0xf902_41aa,
            index == 114 ==> entry == 0xe20b_1010,
            index == 115 ==> entry == 0xeb0c_2086,
            index == 116 ==> entry == 0x0f68_b525,
            index == 117 ==> entry == 0x066f_85b3,
            index == 118 ==> entry == 0x1d66_d409,
            index == 119 ==> entry == 0x1461_e49f,
            index == 120 ==> entry == 0x0ede_f90e,
            index == 121 ==> entry == 0x07d9_c998,
            index == 122 ==> entry == 0x1cd0_9822,
            index == 123 ==> entry == 0x15d7_a8b4,
            index == 124 ==> entry == 0xf1b3_3d17,
            index == 125 ==> entry == 0xf8b4_0d81,
            index == 126 ==> entry == 0xe3bd_5c3b,
            index == 127 ==> entry == 0xeaba_6cad,
    ;
}

proof fn entries_from_128(index: u8)
    requires
        128 <= index < 160,
    ensures
        ISAAC_CRC_TABLE@[index as int] == entry_for_bits(index),
{
    let entry = ISAAC_CRC_TABLE@[index as int];
    assert(index == 128 ==> entry == 0xedb8_8320);
    assert(index == 129 ==> entry == 0xe4bf_b3b6);
    assert(index == 130 ==> entry == 0xffb6_e20c);
    assert(index == 131 ==> entry == 0xf6b1_d29a);
    assert(index == 132 ==> entry == 0x12d5_4739);
    assert(index == 133 ==> entry == 0x1bd2_77af);
    assert(index == 134 ==> entry == 0x00db_2615);
    assert(index == 135 ==> entry == 0x09dc_1683);
    assert(index == 136 ==> entry == 0x1363_0b12);
    assert(index == 137 ==> entry == 0x1a64_3b84);
    assert(index == 138 ==> entry == 0x016d_6a3e);
    assert(index == 139 ==> entry == 0x086a_5aa8);
    assert(index == 140 ==> entry == 0xec0e_cf0b);
    assert(index == 141 ==> entry == 0xe509_ff9d);
    assert(index == 142 ==> entry == 0xfe00_ae27);
    assert(index == 143 ==> entry == 0xf707_9eb1);
    assert(index == 144 ==> entry == 0x100f_9344);
    assert(index == 145 ==> entry == 0x1908_a3d2);
    assert(index == 146 ==> entry == 0x0201_f268);
    assert(index == 147 ==> entry == 0x0b06_c2fe);
    assert(index == 148 ==> entry == 0xef62_575d);
    assert(index == 149 ==> entry == 0xe665_67cb);
    assert(index == 150 ==> entry == 0xfd6c_3671);
    assert(index == 151 ==> entry == 0xf46b_06e7);
    assert(index == 152 ==> entry == 0xeed4_1b76);
    assert(index == 153 ==> entry == 0xe7d3_2be0);
    assert(index == 154 ==> entry == 0xfcda_7a5a);
    assert(index == 155 ==> entry == 0xf5dd_4acc);
    assert(index == 156 ==> entry == 0x11b9_df6f);
    assert(index == 157 ==> entry == 0x18be_eff9);
    assert(index == 158 ==> entry == 0x03b7_be43);
    assert(index == 159 ==> entry == 0x0ab0_8ed5);
    assert(entry == (if (index >> 0u8) & 1 == 1 { 0x0907_3096u32 } else { 0 })
        ^ (if (index >> 1u8) & 1 == 1 { 0x120e_612cu32 } else { 0 })
        ^ (if (index >> 2u8) & 1 == 1 { 0xff6d_c419u32 } else { 0 })
        ^ (if (index >> 3u8) & 1 == 1 { 0xfedb_8832u32 } else { 0 })
        ^ (if (index >> 4u8) & 1 == 1 { 0xfdb7_1064u32 } else { 0 })
        ^ (if (index >> 5u8) & 1 == 1 { 0xfb6e_20c8u32 } else { 0 })
        ^ (if (index >> 6u8) & 1 == 1 { 0xf6dc_4190u32 } else { 0 })
        ^ (if (index >> 7u8) & 1 == 1 { 0xedb8_8320u32 } else { 0 })) by (bit_vector)
        requires
            128 <= index,
            index < 160,
            index == 128 ==> entry == 0xedb8_8320,
            index == 129 ==> entry == 0xe4bf_b3b6,
            index == 130 ==> entry == 0xffb6_e20c,
            index == 131 ==> entry == 0xf6b1_d29a,
            index == 132 ==> entry == 0x12d5_4739,
            index == 133 ==> entry == 0x1bd2_77af,
            index == 134 ==> entry == 0x00db_2615,
            index == 135 ==> entry == 0x09dc_1683,
            index == 136 ==> entry == 0x1363_0b12,
            index == 137 ==> entry == 0x1a64_3b84,
            index == 138 ==> entry == 0x016d_6a3e,
            index == 139 ==> entry == 0x086a_5aa8,
            index == 140 ==> entry == 0xec0e_cf0b,
            index == 141 ==> entry == 0xe509_ff9d,
            index == 142 ==> entry == 0xfe00_ae27,
            index == 143 ==> entry == 0xf707_9eb1,
            index == 144 ==> entry == 0x100f_9344,
            index == 145 ==> entry == 0x1908_a3d2,
            index == 146 ==> entry == 0x0201_f268,
            index == 147 ==> entry == 0x0b06_c2fe,
            index == 148 ==> entry == 0xef62_575d,
            index == 149 ==> entry == 0xe665_67cb,
            index == 150 ==> entry == 0xfd6c_3671,
            index == 151 ==> entry == 0xf46b_06e7,
            index == 152 ==> entry == 0xeed4_1b76,
            index == 153 ==> entry == 0xe7d3_2be0,
            index == 154 ==> entry == 0xfcda_7a5a,
            index == 155 ==> entry == 0xf5dd_4acc,
            index == 156 ==> entry == 0x11b9_df6f,
            index == 157 ==> entry == 0x18be_eff9,
            index == 158 ==> entry == 0x03b7_be43,
            index == 159 ==> entry == 0x0ab0_8ed5,
    ;
}

proof fn entries_from_160(index: u8)
    requires
        160 <= index < 192,
    ensures
        ISAAC_CRC_TABLE@[index as int] == entry_for_bits(index),
{
    let entry = ISAAC_CRC_TABLE@[index as int];
    assert(index == 160 ==> entry == 0x16d6_a3e8);
    assert(index == 161 ==> entry == 0x1fd1_937e);
    assert(index == 162 ==> entry == 0x04d8_c2c4);
    assert(index == 163 ==> entry == 0x0ddf_f252);
    assert(index == 164 ==> entry == 0xe9bb_67f1);
    assert(index == 165 ==> entry == 0xe0bc_5767);
    assert(index == 166 ==> entry == 0xfbb5_06dd);
    assert(index == 167 ==> entry == 0xf2b2_364b);
    assert(index == 168 ==> entry == 0xe80d_2bda);
    assert(index == 169 ==> entry == 0xe10a_1b4c);
    assert(index == 170 ==> entry == 0xfa03_4af6);
    assert(index == 171 ==> entry == 0xf304_7a60);
    assert(index == 172 ==> entry == 0x1760_efc3);
    assert(index == 173 ==> entry == 0x1e67_df55);
    assert(index == 174 ==> entry == 0x056e_8eef);
    assert(index == 175 ==> entry == 0x0c69_be79);
    assert(index == 176 ==> entry == 0xeb61_b38c);
    assert(index == 177 ==> entry == 0xe266_831a);
    assert(index == 178 ==> entry == 0xf96f_d2a0);
    assert(index == 179 ==> entry == 0xf068_e236);
    assert(index == 180 ==> entry == 0x140c_7795);
    assert(index == 181 ==> entry == 0x1d0b_4703);
    assert(index == 182 ==> entry == 0x0602_16b9);
    assert(index == 183 ==> entry == 0x0f05_262f);
    assert(index == 184 ==> entry == 0x15ba_3bbe);
    assert(index == 185 ==> entry == 0x1cbd_0b28);
    assert(index == 186 ==> entry == 0x07b4_5a92);
    assert(index == 187 ==> entry == 0x0eb3_6a04);
    assert(index == 188 ==> entry == 0xead7_ffa7);
    assert(index == 189 ==> entry == 0xe3d0_cf31);
    assert(index == 190 ==> entry == 0xf8d9_9e8b);
    assert(index == 191 ==> entry == 0xf1de_ae1d);
    assert(entry == (if (index >> 0u8) & 1 == 1 { 0x0907_3096u32 } else { 0 })
        ^ (if (index >> 1u8) & 1 == 1 { 0x120e_612cu32 } else { 0 })
        ^ (if (index >> 2u8) & 1 == 1 { 0xff6d_c419u32 } else { 0 })
        ^ (if (index >> 3u8) & 1 == 1 { 0xfedb_8832u32 } else { 0 })
        ^ (if (index >> 4u8) & 1 == 1 { 0xfdb7_1064u32 } else { 0 })
        ^ (if (index >> 5u8) & 1 == 1 { 0xfb6e_20c8u32 } else { 0 })
        ^ (if (index >> 6u8) & 1 == 1 { 0xf6dc_4190u32 } else { 0 })
        ^ (if (index >> 7u8) & 1 == 1 { 0xedb8_8320u32 } else { 0 })) by (bit_vector)
        requires
            160 <= index,
            index < 192,
            index == 160 ==> entry == 0x16d6_a3e8,
            index == 161 ==> entry == 0x1fd1_937e,
            index == 162 ==> entry == 0x04d8_c2c4,
            index == 163 ==> entry == 0x0ddf_f252,
            index == 164 ==> entry == 0xe9bb_67f1,
            index == 165 ==> entry == 0xe0bc_5767,
            index == 166 ==> entry == 0xfbb5_06dd,
            index == 167 ==> entry == 0xf2b2_364b,
            index == 168 ==> entry == 0xe80d_2bda,
            index == 169 ==> entry == 0xe10a_1b4c,
            index == 170 ==> entry == 0xfa03_4af6,
            index == 171 ==> entry == 0xf304_7a60,
            index == 172 ==> entry == 0x1760_efc3,
            index == 173 ==> entry == 0x1e67_df55,
            index == 174 ==> entry == 0x056e_8eef,
            index == 175 ==> entry == 0x0c69_be79,
            index == 176 ==> entry == 0xeb61_b38c,
            index == 177 ==> entry == 0xe266_831a,
            index == 178 ==> entry == 0xf96f_d2a0,
            index == 179 ==> entry == 0xf068_e236,
            index == 180 ==> entry == 0x140c_7795,
            index == 181 ==> entry == 0x1d0b_4703,
            index == 182 ==> entry == 0x0602_16b9,
            index == 183 ==> entry == 0x0f05_262f,
            index == 184 ==> entry == 0x15ba_3bbe,
            index == 185 ==> entry == 0x1cbd_0b28,
            index == 186 ==> entry == 0x07b4_5a92,
            index == 187 ==> entry == 0x0eb3_6a04,
            index == 188 ==> entry == 0xead7_ffa7,
            index == 189 ==> entry == 0xe3d0_cf31,
            index == 190 ==> entry == 0xf8d9_9e8b,
            index == 191 ==> entry == 0xf1de_ae1d,
    ;
}

proof fn entries_from_192(index: u8)
    requires
        192 <= index < 224,
    ensures
        ISAAC_CRC_TABLE@[index as int] == entry_for_bits(index),
{
    let entry = ISAAC_CRC_TABLE@[index as int];
    assert(index == 192 ==> entry == 0x1b64_c2b0);
    assert(index == 193 ==> entry == 0x1263_f226);
    assert(index == 194 ==> entry == 0x096a_a39c);
    assert(index == 195 ==> entry == 0x006d_930a);
    assert(index == 196 ==> entry == 0xe409_06a9);
    assert(index == 197 ==> entry == 0xed0e_363f);
    assert(index == 198 ==> entry == 0xf607_6785);
    assert(index == 199 ==> entry == 0xff00_5713);
    assert(index == 200 ==> entry == 0xe5bf_4a82);
    assert(index == 201 ==> entry == 0xecb8_7a14);
    assert(index == 202 ==> entry == 0xf7b1_2bae);
    assert(index == 203 ==> entry == 0xfeb6_1b38);
    assert(index == 204 ==> entry == 0x1ad2_8e9b);
    assert(index == 205 ==> entry == 0x13d5_be0d);
    assert(index == 206 ==> entry == 0x08dc_efb7);
    assert(index == 207 ==> entry == 0x01db_df21);
    assert(index == 208 ==> entry == 0xe6d3_d2d4);
    assert(index == 209 ==> entry == 0xefd4_e242);
    assert(index == 210 ==> entry == 0xf4dd_b3f8);
    assert(index == 211 ==> entry == 0xfdda_836e);
    assert(index == 212 ==> entry == 0x19be_16cd);
    assert(index == 213 ==> entry == 0x10b9_265b);
    assert(index == 214 ==> entry == 0x0bb0_77e1);
    assert(index == 215 ==> entry == 0x02b7_4777);
    assert(index == 216 ==> entry == 0x1808_5ae6);
    assert(index == 217 ==> entry == 0x110f_6a70);
    assert(index == 218 ==> entry == 0x0a06_3bca);
    assert(index == 219 ==> entry == 0x0301_0b5c);
    assert(index == 220 ==> entry == 0xe765_9eff);
    assert(index == 221 ==> entry == 0xee62_ae69);
    assert(index == 222 ==> entry == 0xf56b_ffd3);
    assert(index == 223 ==> entry == 0xfc6c_cf45);
    assert(entry == (if (index >> 0u8) & 1 == 1 { 0x0907_3096u32 } else { 0 })
        ^ (if (index >> 1u8) & 1 == 1 { 0x120e_612cu32 } else { 0 })
        ^ (if (index >> 2u8) & 1 == 1 { 0xff6d_c419u32 } else { 0 })
        ^ (if (index >> 3u8) & 1 == 1 { 0xfedb_8832u32 } else { 0 })
        ^ (if (index >> 4u8) & 1 == 1 { 0xfdb7_1064u32 } else { 0 })
        ^ (if (index >> 5u8) & 1 == 1 { 0xfb6e_20c8u32 } else { 0 })
        ^ (if (index >> 6u8) & 1 == 1 { 0xf6dc_4190u32 } else { 0 })
        ^ (if (index >> 7u8) & 1 == 1 { 0xedb8_8320u32 } else { 0 })) by (bit_vector)
        requires
            192 <= index,
            index < 224,
            index == 192 ==> entry == 0x1b64_c2b0,
            index == 193 ==> entry == 0x1263_f226,
            index == 194 ==> entry == 0x096a_a39c,
            index == 195 ==> entry == 0x006d_930a,
            index == 196 ==> entry == 0xe409_06a9,
            index == 197 ==> entry == 0xed0e_363f,
            index == 198 ==> entry == 0xf607_6785,
            index == 199 ==> entry == 0xff00_5713,
            index == 200 ==> entry == 0xe5bf_4a82,
            index == 201 ==> entry == 0xecb8_7a14,
            index == 202 ==> entry == 0xf7b1_2bae,
            index == 203 ==> entry == 0xfeb6_1b38,
            index == 204 ==> entry == 0x1ad2_8e9b,
            index == 205 ==> entry == 0x13d5_be0d,
            index == 206 ==> entry == 0x08dc_efb7,
            index == 207 ==> entry == 0x01db_df21,
            index == 208 ==> entry == 0xe6d3_d2d4,
            index == 209 ==> entry == 0xefd4_e242,
            index == 210 ==> entry == 0xf4dd_b3f8,
            index == 211 ==> entry == 0xfdda_836e,
            index == 212 ==> entry == 0x19be_16cd,
            index == 213 ==> entry == 0x10b9_265b,
            index == 214 ==> entry == 0x0bb0_77e1,
            index == 215 ==> entry == 0x02b7_4777,
            index == 216 ==> entry == 0x1808_5ae6,
            index == 217 ==> entry == 0x110f_6a70,
            index == 218 ==> entry == 0x0a06_3bca,
            index == 219 ==> entry == 0x0301_0b5c,
            index == 220 ==> entry == 0xe765_9eff,
            index == 221 ==> entry == 0xee62_ae69,
            index == 222 ==> entry == 0xf56b_ffd3,
            index == 223 ==> entry == 0xfc6c_cf45,
    ;
}

proof fn entries_from_224(index: u8)
    requires
        224 <= index < 256,
    ensures
        ISAAC_CRC_TABLE@[index as int] == entry_for_bits(index),
{
    let entry = ISAAC_CRC_TABLE@[index as int];
    assert(index == 224 ==> entry == 0xe00a_e278);
    assert(index == 225 ==> entry == 0xe90d_d2ee);
    assert(index == 226 ==> entry == 0xf204_8354);
    assert(index == 227 ==> entry == 0xfb03_b3c2);
    assert(index == 228 ==> entry == 0x1f67_2661);
    assert(index == 229 ==> entry == 0x1660_16f7);
    assert(index == 230 ==> entry == 0x0d69_474d);
    assert(index == 231 ==> entry == 0x046e_77db);
    assert(index == 232 ==> entry == 0x1ed1_6a4a);
    assert(index == 233 ==> entry == 0x17d6_5adc);
    assert(index == 234 ==> entry == 0x0cdf_0b66);
    assert(index == 235 ==> entry == 0x05d8_3bf0);
    assert(index == 236 ==> entry == 0xe1bc_ae53);
    assert(index == 237 ==> entry == 0xe8bb_9ec5);
    assert(index == 238 ==> entry == 0xf3b2_cf7f);
    assert(index == 239 ==> entry == 0xfab5_ffe9);
    assert(index == 240 ==> entry == 0x1dbd_f21c);
    assert(index == 241 ==> entry == 0x14ba_c28a);
    assert(index == 242 ==> entry == 0x0fb3_9330);
    assert(index == 243 ==> entry == 0x06b4_a3a6);
    assert(index == 244 ==> entry == 0xe2d0_3605);
    assert(index == 245 ==> entry == 0xebd7_0693);
    assert(index == 246 ==> entry == 0xf0de_5729);
    assert(index == 247 ==> entry == 0xf9d9_67bf);
    assert(index == 248 ==> entry == 0xe366_7a2e);
    assert(index == 249 ==> entry == 0xea61_4ab8);
    assert(index == 250 ==> entry == 0xf168_1b02);
    assert(index == 251 ==> entry == 0xf86f_2b94);
    assert(index == 252 ==> entry == 0x1c0b_be37);
    assert(index == 253 ==> entry == 0x150c_8ea1);
    assert(index == 254 ==> entry == 0x0e05_df1b);
    assert(index == 255 ==> entry == 0x0702_ef8d);
    assert(entry == (if (index >> 0u8) & 1 == 1 { 0x0907_3096u32 } else { 0 })
        ^ (if (index >> 1u8) & 1 == 1 { 0x120e_612cu32 } else { 0 })
        ^ (if (index >> 2u8) & 1 == 1 { 0xff6d_c419u32 } else { 0 })
        ^ (if (index >> 3u8) & 1 == 1 { 0xfedb_8832u32 } else { 0 })
        ^ (if (index >> 4u8) & 1 == 1 { 0xfdb7_1064u32 } else { 0 })
        ^ (if (index >> 5u8) & 1 == 1 { 0xfb6e_20c8u32 } else { 0 })
        ^ (if (index >> 6u8) & 1 == 1 { 0xf6dc_4190u32 } else { 0 })
        ^ (if (index >> 7u8) & 1 == 1 { 0xedb8_8320u32 } else { 0 })) by (bit_vector)
        requires
            224 <= index,
            index == 224 ==> entry == 0xe00a_e278,
            index == 225 ==> entry == 0xe90d_d2ee,
            index == 226 ==> entry == 0xf204_8354,
            index == 227 ==> entry == 0xfb03_b3c2,
            index == 228 ==> entry == 0x1f67_2661,
            index == 229 ==> entry == 0x1660_16f7,
            index == 230 ==> entry == 0x0d69_474d,
            index == 231 ==> entry == 0x046e_77db,
            index == 232 ==> entry == 0x1ed1_6a4a,
            index == 233 ==> entry == 0x17d6_5adc,
            index == 234 ==> entry == 0x0cdf_0b66,
            index == 235 ==> entry == 0x05d8_3bf0,
            index == 236 ==> entry == 0xe1bc_ae53,
            index == 237 ==> entry == 0xe8bb_9ec5,
            index == 238 ==> entry == 0xf3b2_cf7f,
            index == 239 ==> entry == 0xfab5_ffe9,
            index == 240 ==> entry == 0x1dbd_f21c,
            index == 241 ==> entry == 0x14ba_c28a,
            index == 242 ==> entry == 0x0fb3_9330,
            index == 243 ==> entry == 0x06b4_a3a6,
            index == 244 ==> entry == 0xe2d0_3605,
            index == 245 ==> entry == 0xebd7_0693,
            index == 246 ==> entry == 0xf0de_5729,
            index == 247 ==> entry == 0xf9d9_67bf,
            index == 248 ==> entry == 0xe366_7a2e,
            index == 249 ==> entry == 0xea61_4ab8,
            index == 250 ==> entry == 0xf168_1b02,
            index == 251 ==> entry == 0xf86f_2b94,
            index == 252 ==> entry == 0x1c0b_be37,
            index == 253 ==> entry == 0x150c_8ea1,
            index == 254 ==> entry == 0x0e05_df1b,
            index == 255 ==> entry == 0x0702_ef8d,
    ;
}

/// Every entry of the table is the sum without carry of what the bits of its index contribute.
pub proof fn table_is_made_of_eight_entries(index: u8)
    ensures
        ISAAC_CRC_TABLE@[index as int] == entry_for_bits(index),
{
    if index < 32 {
        entries_from_0(index);
    } else if index < 64 {
        entries_from_32(index);
    } else if index < 96 {
        entries_from_64(index);
    } else if index < 128 {
        entries_from_96(index);
    } else if index < 160 {
        entries_from_128(index);
    } else if index < 192 {
        entries_from_160(index);
    } else if index < 224 {
        entries_from_192(index);
    } else {
        entries_from_224(index);
    }
}

proof fn register_continues(register: u32, a: Seq<u8>, b: Seq<u8>)
    ensures
        crc_register(register, a + b) == crc_register(crc_register(register, a), b),
    decreases b.len(),
{
    if b.len() == 0 {
        assert(a + b =~= a);
    } else {
        register_continues(register, a, b.drop_last());
        assert((a + b).drop_last() =~= a + b.drop_last());
        assert((a + b).last() == b.last());
    }
}

/// The checksum of nothing is the seed, that of one byte is a step of the table, and that of a
/// stream behind another goes on from the checksum of the first.
pub proof fn checksums_continue(a: Seq<u8>, b: Seq<u8>, byte: u8, start: u32)
    ensures
        isaac_crc(Seq::empty(), start) == start,
        isaac_crc(seq![byte], start) == !((!start >> 8) ^ entry_for_bits(byte ^ (!start as u8))),
        isaac_crc(a + b, start) == isaac_crc(b, isaac_crc(a, start)),
{
    table_is_made_of_eight_entries(byte ^ (!start as u8));
    reveal_with_fuel(crc_register, 2);
    assert(seq![byte].drop_last() =~= Seq::<u8>::empty());
    register_continues(!start, a, b);
    let middle = crc_register(!start, a);
    assert(!!start == start && !!middle == middle) by (bit_vector);
}

} // verus!
