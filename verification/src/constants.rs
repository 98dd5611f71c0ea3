use vstd::prelude::*;

verus! {

/// Target chunk length in bytes.
pub const AVG_SIZE: usize = 1024;

/// No chunk boundary is placed before a chunk holds this many bytes.
pub const MIN_SIZE: usize = 256;

/// A chunk that reaches this many bytes is closed whatever the register holds.
pub const MAX_SIZE: usize = 8192;

/// Boundary mask while a chunk is shorter than `AVG_SIZE`: the low eleven bits.
pub const MASK_SMALL: u64 = 0x7FF;

/// Boundary mask once a chunk holds `AVG_SIZE` bytes or more: the low nine bits.
pub const MASK_LARGE: u64 = 0x1FF;

/// Number of lanes of the similarity sketch.
pub const LANES: usize = 64;

/// Value of a lane that no feature has reached yet.
pub const LANE_SENTINEL: u32 = 0xFFFF_FFFF;

/// Length in bytes of both full digests.
pub const DIGEST_LEN: usize = 32;

/// Multihash code of BLAKE3.
pub const MULTIHASH_CODE: u8 = 0x1e;

/// Multihash length byte of a 32-byte digest.
pub const MULTIHASH_LEN: u8 = 0x20;

/// Gear table: one 64-bit word per byte value.
pub const GEAR: [u64; 256] = [
    0xBCCAF5E16B1BB0F0, 0x58141702AC1E2355, 0x8D284D9EFD2029DE, 0xA6C2F4E383F29EF1,
    0x437C0C888107856F, 0x3211A833F0B1A275, 0x76F7EDD4C7D5B6F0, 0xF236F69476D1A0F0,
    0x40B431301BFDF578, 0xE581DA96D48DE02B, 0x42CC8EC1117C49AD, 0xAD2A103622F3CB1C,
    0xF3547E5C258CB727, 0x78A32127AD00B0BF, 0x87EF98D1C70D3BAA, 0xB247EFCE6A20FD8F,
    0x66FF4E93215138ED, 0xC2544E1096069FA1, 0x2936B32102D02CA6, 0xD82A83EF59FF9427,
    0xC657410659F481D0, 0xB4899DA80B01E8A3, 0xC3A541F2B965C1D5, 0x04A24A7CC87CD06A,
    0x2E81474642951174, 0x252BACC0D25F2DEC, 0x5C41F594888ABD1E, 0x9FE557A76925C433,
    0x80C8BEF16D5EFC26, 0xBEF5ACDBC5BCCB95, 0x078833D1596FE64E, 0x3895719C0BD87A8A,
    0xC9DFE33D78FE510E, 0xF05CED950519A3BE, 0x85EE5110405AEB2F, 0x31778EEFD966B23D,
    0x500A28766E7E0035, 0xE95FAEA794FA8341, 0x5958D9ABFF3D0BF6, 0x807AF4EEE8785936,
    0x512DC99768112313, 0x32544D9F91F0605D, 0xE2A703D6665A3566, 0xDAC7CB5F8CBDA543,
    0xD47F08B47B1A4460, 0xB97A3D6E1341A0FF, 0xD02BAF3DC3898BE3, 0x8DF41ED9D9364C2B,
    0x255F6195ACEACFAF, 0xB6F576BB2F8A2349, 0xBE8756BFDCC439C6, 0x496ABD83A98C956E,
    0x8B83FFE90263B44E, 0xD6B38CCFF9DFF3ED, 0x37116DE54C1238C6, 0x9CD53D3DB9CE1726,
    0xD22123A75A9100D3, 0x0381EE4E9D7DAA23, 0x1E832101D5D8CB56, 0xCE7A19F9575F9692,
    0x981EDB5BC6E86349, 0x6D7DA53068B898F0, 0xA800FF73A9CBCB53, 0x3D7713EE26D0C6CB,
    0xC1D91914224AEAF5, 0xF7D45CDEDD01686B, 0x588F82044E21D3A9, 0xB38F21660EA56CC0,
    0x06E362B0330CD918, 0xE5917CC32FCFD637, 0x92A1DD4DD4A5928F, 0x603E0E4A00DD2335,
    0xD1F0A0582BF32D49, 0x09D55ABBFBFDD0D5, 0xCE95E8A0487E2934, 0xCDBD65CD80C357B2,
    0x989EA808A8CE8DE4, 0x757416B2F23B1721, 0xE5F183D41DFFE082, 0xB1FF9C10DA4718E7,
    0x12E2843A6161700C, 0x8E5B6CA3D99F2190, 0x64568F85D1E04CA5, 0xFFC198A58B4D2FCA,
    0x01C866E1E9E27CDC, 0x2387E482B8ED582A, 0x03218422D1AC6E93, 0x2EF2804EAAE670A1,
    0xFCD8FF6FBA72C9F8, 0xB9BFDDA365628481, 0x30CA6CE4C4F68205, 0x614F496BD0340180,
    0x82D30BE91A2805D3, 0x4AFA34E34A240686, 0xE66A2B8C1C75DD5A, 0x1C2C8B03EC95773A,
    0x728C2BC29052DC69, 0x1DD627F9618859CC, 0x13CDCE232D075AFB, 0x3CD273DBEA5DECE5,
    0x116AAA0429F05222, 0x260592470B5B6711, 0x904740993C68A620, 0x729B8AE48E034022,
    0xB1433CED18D0A142, 0x779FFFE218D529C5, 0xF1098E8488D37A47, 0x788F10B5DABAEC90,
    0xA9B7EE57AC901526, 0x40960882A5C8226F, 0x4FAC4CF463A9914A, 0x4C28B31FFAFEC35C,
    0x1D3C5C075CA8F93E, 0x2EE5D6DA91D5B2F4, 0xEA435436D2B5FAF9, 0x0EDF39FC0FD1A895,
    0x6B2C508E9933AFE7, 0x4441839D2424BF95, 0xE1DF5EDED4ACC401, 0x333AF60F2F452D8F,
    0x303EB333EC0859CD, 0x231D7651D49F571F, 0xF4D023F814908A6F, 0x6CCF40BC6E8110A5,
    0x68423B1FCE0665B2, 0x2EDFCD8627BD263C, 0x3FAE63F342B0CE9D, 0xFB760CB82310EFDC,
    0xE85A5B516F4EF0BC, 0x6332B43699AF8D5B, 0x77E026788C088CD8, 0xCC6AD023DA435DAE,
    0xD6C25F52ECE56E20, 0xA7BBEE1E1B6E6793, 0x21A6033ACD34E443, 0x6DF863EE50834F68,
    0x3A568C3EB7E5997B, 0x3D6039E31BC49570, 0x7783DAC9D23474C7, 0x1063D0384045F6FA,
    0x5D670383CB104C01, 0x8243900BFBEEBA4D, 0xB55CB4202397EFF6, 0xBE8F3F361660ABF0,
    0xD10D12FAAB69051A, 0x95830950976B26BB, 0x5573675E2520FAE0, 0x520F4362ACC1C62D,
    0xFB786ABCE5459318, 0x9D3D7188D52B079B, 0xE25F4F2AD7AB001F, 0x7440363C3F04243B,
    0x5C0B088150C8BEE3, 0x4C7FD5E1F24E4062, 0x32623989AC4FB777, 0x06D12C17C4CD234F,
    0x8FFA8124B3F2CA63, 0x52961D56BCE3A10F, 0xC350603ED80812AB, 0x3DC2A3B03AD40A83,
    0xA1FFBDD788F133D0, 0x5396B1005254241A, 0xAA187236600C1D70, 0xA98F0E4A44866016,
    0x4A74DAD2A439F528, 0x1551EB2E915ED14E, 0x820500BBBB4021F8, 0x9B91866E55CDF8F9,
    0x6643FC911B55781F, 0x06B2DCE3EC44C857, 0x5320929A637AF268, 0x5B853700A588918C,
    0xA2DF6D273463450B, 0x408FD1C38F23CDFD, 0x47FBEE7A78A75331, 0x82D0F882F8D7F981,
    0x319436555D55A6B4, 0x0F7F27BB5D37430A, 0x907DBA8FA0A34EC7, 0x7182EFB069512EF0,
    0x1A1D6FF52E94E348, 0xBB5B1043EC1A4650, 0x04440060296137B0, 0x324B464272F0E25E,
    0x5C972F6BEC6966CE, 0xF7A1DAC7C7501500, 0xE3E09CB38E371A1C, 0xA8898CEF781D06A7,
    0x722C45A641B95C08, 0xF1AC9385B602B718, 0xD1A0684DE0119ABA, 0xA81115002E3BBE05,
    0x091DBB800A6B4ABF, 0xAFC5BA5E2DACB404, 0x6DF7B9CCAEB31413, 0x5A04212CDB3855FA,
    0x24C98718E1B7DE6F, 0xF8BC8BAC6AA5C0D0, 0xD92C5AA281C7D24D, 0xBE75C23C65BDB69E,
    0x1D171F027CA25572, 0x1C0AFE9F492C2866, 0x7EA382AA2ABDDA60, 0x68D66CBB0D519A51,
    0xD61AA3D7BE149908, 0x9DEB8B738A45C409, 0xDB27E4B006C6C20F, 0x3CF65A0D4D55A0A4,
    0x6E12473E955693F0, 0x7CF18FB46D342258, 0x022CC8CFB2F73356, 0xDD26D72E82042F1F,
    0xDA834513FABE1478, 0x32FF06DAB9480938, 0xD825A73A3F9E73BB, 0xBCEE758233F619F0,
    0xFA9A7E170119192F, 0xB112B913548D4211, 0xD1B8A53069B8DC00, 0x3435753A90FEF058,
    0xFD5ADDA773067481, 0x2490FC44901FB83F, 0xB09AA23E256C701D, 0xDF29020A45BA9A43,
    0x8F52F1985D072570, 0xC2813DD944C119A0, 0x677194D786E41D46, 0x8144C884620822A5,
    0x249EAD0EEF57B57D, 0x8382822CC74A0BC6, 0xB9092B69415A4231, 0xA60A9299EF8C766D,
    0xD70C78E7F6569CDB, 0x09A70D8B3AFC55AF, 0xD994AB5A9B03B743, 0x1BF7B6DCAAB958BE,
    0xC0F817764A5744D4, 0xBC89C403E407389A, 0xFE1F80BA404A75F8, 0x9B74B093FE4927AD,
    0x2E43327C18640931, 0xDAC40CDFC27DFF3A, 0xDD43B377CACC9030, 0x229DD1B667DD5F09,
    0x89DD86B413429679, 0xAD6829F1727BA341, 0xB1D040B00EC7CBA2, 0x42D7DF90944AA85E,
    0x512D71B85108012F, 0x9F2CF737DA313B42, 0xEB929732E3557ED3, 0xF8AE8EDA4F7978AB,
    0x904D7C7241D41363, 0xD9867AE70170B2F8, 0x74784C816098DABC, 0xC414EEE04207898D,
];

/// Per-lane multipliers of the sketch permutations. Every entry is odd.
pub const LANE_MUL: [u32; 64] = [
    0xBD649FD3, 0xBB320D43, 0x617C165D, 0x600E86B3, 0x922BAAB1, 0x3B3F3965, 0x06169F31, 0x766AD06D,
    0x4D51EFBD, 0xABB71739, 0x805521AF, 0x00FA0DEB, 0x83B86047, 0xF4EEA3D7, 0x031C12EB, 0x6B298EDF,
    0xF6C58D1B, 0x85119FF7, 0x2084166F, 0x5F1C952B, 0x88BCFB2B, 0xBEE020D1, 0x72F615EF, 0x5A286A5D,
    0x01B2E6B7, 0xFBF12149, 0x95E727D7, 0x3FD51FE1, 0xC706C3BF, 0x485918D5, 0x928D9EFF, 0x32186FE9,
    0x4B178963, 0x6F9DE1AB, 0x60E217DB, 0x3BFDC047, 0xA8FB008F, 0xAE326D4D, 0x58AC7AE7, 0x71F04F1B,
    0x9EB92567, 0xFE904611, 0x74064C1F, 0xB06AC0C1, 0x5898B013, 0x32BFC96F, 0x266D93A1, 0x94C9B4AF,
    0x7BD88C47, 0x31929AAD, 0x6663A7BF, 0x4B8F9929, 0xF0B82A9D, 0x6D1B6B85, 0xB6EE0CCF, 0xEB04E381,
    0xFC838A0D, 0x7ACD119B, 0x3C273EB9, 0x073D3F7B, 0x1FDA78FF, 0xADAB43ED, 0x1FFC5FB5, 0xDC3B9025,
];

/// Per-lane offsets of the sketch permutations.
pub const LANE_ADD: [u32; 64] = [
    0x329031D7, 0x23F40FA4, 0xD16CC751, 0x19EBB495, 0x6164F45A, 0xFC77B95C, 0x9986C0BB, 0x93F6C606,
    0x40B0B778, 0x6B26BB74, 0x0F8B080E, 0x5BC22F79, 0x8D22435D, 0xA7E12BDB, 0x242043B8, 0xCFB19AFB,
    0x209E6291, 0x08EB0C7D, 0x5157B920, 0xD1F3517B, 0xAF7949C0, 0xF897306F, 0x53E0719C, 0xE006D442,
    0x94DA8A44, 0xD23A52CF, 0x47EDCF55, 0x28C4022C, 0x8F07FD55, 0xFD8B531C, 0x3E3E3106, 0xD72357AA,
    0xA3126445, 0x875B9779, 0x71E7A923, 0x56E3FE51, 0x93E9A26D, 0x8668DA91, 0x61A5B1D6, 0xACFA6A1A,
    0x05C969DC, 0x4A2255D3, 0x0D24EA6A, 0x950AEA1A, 0x827F8E5C, 0xE7EE06CF, 0x6024662F, 0xD89A6C92,
    0x4C75C049, 0xEB3A2EEE, 0x40189FDF, 0xFFD61581, 0x01C0C2FC, 0xA1E1A55B, 0xEB1BD24C, 0x4E73F0D1,
    0xA9A61D99, 0xBDE975FB, 0xF9EFD0A4, 0xBCA63B23, 0x6511F80F, 0xF6B20402, 0xA54BE7DB, 0x8351217A,
];

/// The chunking profile hangs together: the least chunk is a quarter of the
/// target, the greatest is eight times the target, and the masks cover the
/// low eleven and the low nine bits.
pub proof fn lemma_profile()
    ensures
        AVG_SIZE == 1024,
        MIN_SIZE == AVG_SIZE / 4,
        MAX_SIZE == AVG_SIZE * 8,
        MASK_SMALL == 2048 - 1,
        MASK_LARGE == 512 - 1,
        GEAR@.len() == 256,
        LANE_MUL@.len() == LANES,
        LANE_ADD@.len() == LANES,
        4 * LANES == 8 * DIGEST_LEN,
{
}

} // verus!
