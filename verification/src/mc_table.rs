//! Fixed lookup tables for the Marching Cubes extractor.
//!
//! The cube corners are numbered with the bottom face 0 to 3 counter-clockwise
//! and the top face 4 to 7 directly above; edge `e` joins a fixed corner pair
//! (edge 0 joins corners 0 and 1, edge 8 joins corners 0 and 4, and so on).
//! For a cube index whose bit `i` marks corner `i` as inside the surface,
//! the edge table holds the 12-bit mask of crossed edges, and the triangle
//! table holds up to five triangles as triples of edge identifiers.
//!
//! The triangle rows are packed: nibble `j` of a row is the edge identifier
//! in slot `j`, and a nibble of 15 ends the row. On every face of the cube
//! whose four corners alternate inside and outside, the rows separate the two
//! inside corners, so two cells that share such a face agree on the crossing
//! segments and the extracted surface is free of boundary edges.

use vstd::prelude::*;

verus! {

/// Lookup-table holder for the Marching Cubes extractor.
pub struct MCTable;

/// The 12-bit crossed-edge mask for each of the 256 cube indices: bit `e` is
/// set exactly when the corners of edge `e` lie on opposite sides.
pub open spec fn edge_mask_seq() -> Seq<u16> {
    seq![
        0x0000, 0x0109, 0x0203, 0x030a, 0x0406, 0x050f, 0x0605, 0x070c,
        0x080c, 0x0905, 0x0a0f, 0x0b06, 0x0c0a, 0x0d03, 0x0e09, 0x0f00,
        0x0190, 0x0099, 0x0393, 0x029a, 0x0596, 0x049f, 0x0795, 0x069c,
        0x099c, 0x0895, 0x0b9f, 0x0a96, 0x0d9a, 0x0c93, 0x0f99, 0x0e90,
        0x0230, 0x0339, 0x0033, 0x013a, 0x0636, 0x073f, 0x0435, 0x053c,
        0x0a3c, 0x0b35, 0x083f, 0x0936, 0x0e3a, 0x0f33, 0x0c39, 0x0d30,
        0x03a0, 0x02a9, 0x01a3, 0x00aa, 0x07a6, 0x06af, 0x05a5, 0x04ac,
        0x0bac, 0x0aa5, 0x09af, 0x08a6, 0x0faa, 0x0ea3, 0x0da9, 0x0ca0,
        0x0460, 0x0569, 0x0663, 0x076a, 0x0066, 0x016f, 0x0265, 0x036c,
        0x0c6c, 0x0d65, 0x0e6f, 0x0f66, 0x086a, 0x0963, 0x0a69, 0x0b60,
        0x05f0, 0x04f9, 0x07f3, 0x06fa, 0x01f6, 0x00ff, 0x03f5, 0x02fc,
        0x0dfc, 0x0cf5, 0x0fff, 0x0ef6, 0x09fa, 0x08f3, 0x0bf9, 0x0af0,
        0x0650, 0x0759, 0x0453, 0x055a, 0x0256, 0x035f, 0x0055, 0x015c,
        0x0e5c, 0x0f55, 0x0c5f, 0x0d56, 0x0a5a, 0x0b53, 0x0859, 0x0950,
        0x07c0, 0x06c9, 0x05c3, 0x04ca, 0x03c6, 0x02cf, 0x01c5, 0x00cc,
        0x0fcc, 0x0ec5, 0x0dcf, 0x0cc6, 0x0bca, 0x0ac3, 0x09c9, 0x08c0,
        0x08c0, 0x09c9, 0x0ac3, 0x0bca, 0x0cc6, 0x0dcf, 0x0ec5, 0x0fcc,
        0x00cc, 0x01c5, 0x02cf, 0x03c6, 0x04ca, 0x05c3, 0x06c9, 0x07c0,
        0x0950, 0x0859, 0x0b53, 0x0a5a, 0x0d56, 0x0c5f, 0x0f55, 0x0e5c,
        0x015c, 0x0055, 0x035f, 0x0256, 0x055a, 0x0453, 0x0759, 0x0650,
        0x0af0, 0x0bf9, 0x08f3, 0x09fa, 0x0ef6, 0x0fff, 0x0cf5, 0x0dfc,
        0x02fc, 0x03f5, 0x00ff, 0x01f6, 0x06fa, 0x07f3, 0x04f9, 0x05f0,
        0x0b60, 0x0a69, 0x0963, 0x086a, 0x0f66, 0x0e6f, 0x0d65, 0x0c6c,
        0x036c, 0x0265, 0x016f, 0x0066, 0x076a, 0x0663, 0x0569, 0x0460,
        0x0ca0, 0x0da9, 0x0ea3, 0x0faa, 0x08a6, 0x09af, 0x0aa5, 0x0bac,
        0x04ac, 0x05a5, 0x06af, 0x07a6, 0x00aa, 0x01a3, 0x02a9, 0x03a0,
        0x0d30, 0x0c39, 0x0f33, 0x0e3a, 0x0936, 0x083f, 0x0b35, 0x0a3c,
        0x053c, 0x0435, 0x073f, 0x0636, 0x013a, 0x0033, 0x0339, 0x0230,
        0x0e90, 0x0f99, 0x0c93, 0x0d9a, 0x0a96, 0x0b9f, 0x0895, 0x099c,
        0x069c, 0x0795, 0x049f, 0x0596, 0x029a, 0x0393, 0x0099, 0x0190,
        0x0f00, 0x0e09, 0x0d03, 0x0c0a, 0x0b06, 0x0a0f, 0x0905, 0x080c,
        0x070c, 0x0605, 0x050f, 0x0406, 0x030a, 0x0203, 0x0109, 0x0000,
    ]
}

/// The packed triangle row for each of the 256 cube indices.
pub open spec fn tri_row_seq() -> Seq<u64> {
    seq![
        0xffffffffffffffff, 0xfffffffffffff038, 0xfffffffffffff910,
        0xffffffffff139389, 0xfffffffffffffa21, 0xffffffffffa21038,
        0xffffffffff9a0a20, 0xfffffff23a38a89a, 0xfffffffffffffb32,
        0xffffffffff0282b8, 0xffffffffffb32910, 0xfffffff1292b9b89,
        0xffffffffffab1b31, 0xfffffff0181a8ab8, 0xfffffff9a0ab0b30,
        0xffffffffff89b9ab, 0xfffffffffffff874, 0xffffffffff034374,
        0xffffffffff874910, 0xfffffff139379749, 0xffffffffff874a21,
        0xfffffffa21034374, 0xfffffff8749a0a20, 0xffff23a37a74a49a,
        0xffffffffff874b32, 0xfffffff0242b4b74, 0xfffffff874b32910,
        0xffff1292b9b79749, 0xfffffff874ab1b31, 0xffff0141a4ab4b74,
        0xffff8749a0ab0b30, 0xfffffff9a4ab4b74, 0xfffffffffffff459,
        0xffffffffff459038, 0xffffffffff450510, 0xfffffff135385845,
        0xffffffffff459a21, 0xfffffff459a21038, 0xfffffff4505a0a20,
        0xffff23a38a84a45a, 0xffffffffff459b32, 0xfffffff4590282b8,
        0xfffffffb32450510, 0xffff1252b5b85845, 0xfffffff459ab1b31,
        0xffff4590181a8ab8, 0xffff4505a0ab0b30, 0xfffffff4585a8ab8,
        0xffffffffff985875, 0xfffffff039379759, 0xfffffff870750510,
        0xffffffffff135375, 0xfffffff985875a21, 0xffffa21039379759,
        0xffff8707505a0a20, 0xfffffff23a37a75a, 0xfffffff985875b32,
        0xffff0292b9b79759, 0xffffb32870750510, 0xfffffff1252b5b75,
        0xffff985875ab1b31, 0xf0191a9ab9b79759, 0xf8707505a0ab0b30,
        0xffffffffffab5b75, 0xfffffffffffff56a, 0xffffffffff56a038,
        0xffffffffff56a910, 0xfffffff56a139389, 0xffffffffff561621,
        0xfffffff561621038, 0xfffffff950560620, 0xffff236386896956,
        0xffffffffff56ab32, 0xfffffff56a0282b8, 0xfffffff56ab32910,
        0xffff56a1292b9b89, 0xfffffff5616b1b31, 0xffff0181585686b8,
        0xffff9505606b0b30, 0xfffffff5696b9b89, 0xffffffffff56a874,
        0xfffffff56a034374, 0xfffffff56a874910, 0xffff56a139379749,
        0xfffffff874561621, 0xffff561621034374, 0xffff874950560620,
        0xf236376746496956, 0xfffffff56a874b32, 0xffff56a0242b4b74,
        0xffff56a874b32910, 0xf56a1292b9b79749, 0xffff8745616b1b31,
        0xf0141545646b4b74, 0xf8749505606b0b30, 0xffff9545646b4b74,
        0xffffffffff4696a9, 0xfffffff4696a9038, 0xfffffff4606a0a10,
        0xffff13a38a84a46a, 0xfffffff941461621, 0xffff941461621038,
        0xffffffffff460620, 0xfffffff236386846, 0xfffffff4696a9b32,
        0xffff4696a90282b8, 0xffffb324606a0a10, 0xf12a2bab8a84a46a,
        0xffff9414616b1b31, 0xf0181989484686b8, 0xfffffff4606b0b30,
        0xffffffffff4686b8, 0xfffffffa96986876, 0xffff0393797696a9,
        0xffff8707606a0a10, 0xfffffff13a37a76a, 0xffff981871761621,
        0xf039379769629219, 0xfffffff870760620, 0xffffffffff236376,
        0xffffa96986876b32, 0xf0292b9b797696a9, 0xfb328707606a0a10,
        0xffff12a2bab7a76a, 0xf9818717616b1b31, 0xffffffffffb76019,
        0xffff8707606b0b30, 0xfffffffffffffb76, 0xfffffffffffff67b,
        0xffffffffff67b038, 0xffffffffff67b910, 0xfffffff67b139389,
        0xffffffffff67ba21, 0xfffffff67ba21038, 0xfffffff67b9a0a20,
        0xffff67b23a38a89a, 0xffffffffff672732, 0xfffffff028268678,
        0xfffffff672732910, 0xffff129269679789, 0xfffffffa61671731,
        0xffff0181a8a68678, 0xffff9a0a60670730, 0xfffffff67a78a89a,
        0xffffffffff8b4b64, 0xfffffff0343b4b64, 0xfffffff8b4b64910,
        0xffff1393b9b69649, 0xfffffff8b4b64a21, 0xffffa210343b4b64,
        0xffff8b4b649a0a20, 0xf23a3bab6a64a49a, 0xfffffff642482832,
        0xffffffffff024264, 0xffff642482832910, 0xfffffff129269649,
        0xffffa61641481831, 0xfffffff0141a4a64, 0xf9a0a60640480830,
        0xffffffffff9a4a64, 0xffffffffff67b459, 0xfffffff67b459038,
        0xfffffff67b450510, 0xffff67b135385845, 0xfffffff67b459a21,
        0xffff67b459a21038, 0xffff67b4505a0a20, 0xf67b23a38a84a45a,
        0xfffffff459672732, 0xffff459028268678, 0xffff672732450510,
        0xf125265675785845, 0xffff459a61671731, 0xf4590181a8a68678,
        0xf4505a0a60670730, 0xffff4585a8a68678, 0xfffffff9858b5b65,
        0xffff0393b9b69659, 0xffff8b0b60650510, 0xfffffff1353b5b65,
        0xffff9858b5b65a21, 0xfa210393b9b69659, 0xf8b0b606505a0a20,
        0xffff23a3bab6a65a, 0xffff652592982832, 0xfffffff029269659,
        0xf830320260650510, 0xffffffffff125265, 0xfa61651591981831,
        0xffff0191a9a69659, 0xffffffffffa65830, 0xfffffffffffffa65,
        0xffffffffff57a7ba, 0xfffffff57a7ba038, 0xfffffff57a7ba910,
        0xffff57a7ba139389, 0xfffffff5717b1b21, 0xffff5717b1b21038,
        0xffff9505707b0b20, 0xf23b38b89b95b57b, 0xfffffffa52572732,
        0xffff0282a8a58578, 0xffffa52572732910, 0xf1292a9a59579789,
        0xffffffffff571731, 0xfffffff018158578, 0xfffffff950570730,
        0xffffffffff579789, 0xfffffff8b4ba4a54, 0xffff0343b4ba4a54,
        0xffff8b4ba4a54910, 0xf1393b9ba9a59549, 0xffff5414818b1b21,
        0xf0343b4b24214154, 0xf9505404808b0b20, 0xffffffffff95423b,
        0xffffa52542482832, 0xfffffff0242a4a54, 0xfa52542482832910,
        0xffff1292a9a59549, 0xfffffff541481831, 0xffffffffff014154,
        0xffff950540480830, 0xfffffffffffff954, 0xfffffff4797b9ba9,
        0xffff4797b9ba9038, 0xffff4707b0ba0a10, 0xf13a38a84a47a7ba,
        0xffff9414717b1b21, 0xf9414717b1b21038, 0xfffffff4707b0b20,
        0xffff23b38b84b47b, 0xffffa92942472732, 0xf0282a8a98948478,
        0xf4707303202a0a10, 0xffffffffff47812a, 0xfffffff941471731,
        0xffff018198948478, 0xffffffffff470730, 0xfffffffffffff478,
        0xffffffffffba8a98, 0xfffffff0393b9ba9, 0xfffffff8b0ba0a10,
        0xffffffffff13a3ba, 0xfffffff9818b1b21, 0xffff0393b9b29219,
        0xffffffffff8b0b20, 0xfffffffffffff23b, 0xfffffffa92982832,
        0xffffffffff0292a9, 0xffff8303202a0a10, 0xfffffffffffff12a,
        0xffffffffff981831, 0xfffffffffffff019, 0xfffffffffffff830,
        0xffffffffffffffff,
    ]
}

impl MCTable {
    /// The per-case mask of crossed cube edges, indexed by cube index.
    pub fn edge_table() -> (r: Vec<u16>)
        ensures
            r@ == edge_mask_seq(),
    {
        let v: Vec<u16> = vec![
        0x0000, 0x0109, 0x0203, 0x030a, 0x0406, 0x050f, 0x0605, 0x070c,
        0x080c, 0x0905, 0x0a0f, 0x0b06, 0x0c0a, 0x0d03, 0x0e09, 0x0f00,
        0x0190, 0x0099, 0x0393, 0x029a, 0x0596, 0x049f, 0x0795, 0x069c,
        0x099c, 0x0895, 0x0b9f, 0x0a96, 0x0d9a, 0x0c93, 0x0f99, 0x0e90,
        0x0230, 0x0339, 0x0033, 0x013a, 0x0636, 0x073f, 0x0435, 0x053c,
        0x0a3c, 0x0b35, 0x083f, 0x0936, 0x0e3a, 0x0f33, 0x0c39, 0x0d30,
        0x03a0, 0x02a9, 0x01a3, 0x00aa, 0x07a6, 0x06af, 0x05a5, 0x04ac,
        0x0bac, 0x0aa5, 0x09af, 0x08a6, 0x0faa, 0x0ea3, 0x0da9, 0x0ca0,
        0x0460, 0x0569, 0x0663, 0x076a, 0x0066, 0x016f, 0x0265, 0x036c,
        0x0c6c, 0x0d65, 0x0e6f, 0x0f66, 0x086a, 0x0963, 0x0a69, 0x0b60,
        0x05f0, 0x04f9, 0x07f3, 0x06fa, 0x01f6, 0x00ff, 0x03f5, 0x02fc,
        0x0dfc, 0x0cf5, 0x0fff, 0x0ef6, 0x09fa, 0x08f3, 0x0bf9, 0x0af0,
        0x0650, 0x0759, 0x0453, 0x055a, 0x0256, 0x035f, 0x0055, 0x015c,
        0x0e5c, 0x0f55, 0x0c5f, 0x0d56, 0x0a5a, 0x0b53, 0x0859, 0x0950,
        0x07c0, 0x06c9, 0x05c3, 0x04ca, 0x03c6, 0x02cf, 0x01c5, 0x00cc,
        0x0fcc, 0x0ec5, 0x0dcf, 0x0cc6, 0x0bca, 0x0ac3, 0x09c9, 0x08c0,
        0x08c0, 0x09c9, 0x0ac3, 0x0bca, 0x0cc6, 0x0dcf, 0x0ec5, 0x0fcc,
        0x00cc, 0x01c5, 0x02cf, 0x03c6, 0x04ca, 0x05c3, 0x06c9, 0x07c0,
        0x0950, 0x0859, 0x0b53, 0x0a5a, 0x0d56, 0x0c5f, 0x0f55, 0x0e5c,
        0x015c, 0x0055, 0x035f, 0x0256, 0x055a, 0x0453, 0x0759, 0x0650,
        0x0af0, 0x0bf9, 0x08f3, 0x09fa, 0x0ef6, 0x0fff, 0x0cf5, 0x0dfc,
        0x02fc, 0x03f5, 0x00ff, 0x01f6, 0x06fa, 0x07f3, 0x04f9, 0x05f0,
        0x0b60, 0x0a69, 0x0963, 0x086a, 0x0f66, 0x0e6f, 0x0d65, 0x0c6c,
        0x036c, 0x0265, 0x016f, 0x0066, 0x076a, 0x0663, 0x0569, 0x0460,
        0x0ca0, 0x0da9, 0x0ea3, 0x0faa, 0x08a6, 0x09af, 0x0aa5, 0x0bac,
        0x04ac, 0x05a5, 0x06af, 0x07a6, 0x00aa, 0x01a3, 0x02a9, 0x03a0,
        0x0d30, 0x0c39, 0x0f33, 0x0e3a, 0x0936, 0x083f, 0x0b35, 0x0a3c,
        0x053c, 0x0435, 0x073f, 0x0636, 0x013a, 0x0033, 0x0339, 0x0230,
        0x0e90, 0x0f99, 0x0c93, 0x0d9a, 0x0a96, 0x0b9f, 0x0895, 0x099c,
        0x069c, 0x0795, 0x049f, 0x0596, 0x029a, 0x0393, 0x0099, 0x0190,
        0x0f00, 0x0e09, 0x0d03, 0x0c0a, 0x0b06, 0x0a0f, 0x0905, 0x080c,
        0x070c, 0x0605, 0x050f, 0x0406, 0x030a, 0x0203, 0x0109, 0x0000,
        ];
        proof {
            assert(v@ =~= edge_mask_seq());
        }
        v
    }

    /// The packed triangle rows, indexed by cube index.
    pub fn generate_tri_table() -> (r: Vec<u64>)
        ensures
            r@ == tri_row_seq(),
    {
        let v: Vec<u64> = vec![
        0xffffffffffffffff, 0xfffffffffffff038, 0xfffffffffffff910,
        0xffffffffff139389, 0xfffffffffffffa21, 0xffffffffffa21038,
        0xffffffffff9a0a20, 0xfffffff23a38a89a, 0xfffffffffffffb32,
        0xffffffffff0282b8, 0xffffffffffb32910, 0xfffffff1292b9b89,
        0xffffffffffab1b31, 0xfffffff0181a8ab8, 0xfffffff9a0ab0b30,
        0xffffffffff89b9ab, 0xfffffffffffff874, 0xffffffffff034374,
        0xffffffffff874910, 0xfffffff139379749, 0xffffffffff874a21,
        0xfffffffa21034374, 0xfffffff8749a0a20, 0xffff23a37a74a49a,
        0xffffffffff874b32, 0xfffffff0242b4b74, 0xfffffff874b32910,
        0xffff1292b9b79749, 0xfffffff874ab1b31, 0xffff0141a4ab4b74,
        0xffff8749a0ab0b30, 0xfffffff9a4ab4b74, 0xfffffffffffff459,
        0xffffffffff459038, 0xffffffffff450510, 0xfffffff135385845,
        0xffffffffff459a21, 0xfffffff459a21038, 0xfffffff4505a0a20,
        0xffff23a38a84a45a, 0xffffffffff459b32, 0xfffffff4590282b8,
        0xfffffffb32450510, 0xffff1252b5b85845, 0xfffffff459ab1b31,
        0xffff4590181a8ab8, 0xffff4505a0ab0b30, 0xfffffff4585a8ab8,
        0xffffffffff985875, 0xfffffff039379759, 0xfffffff870750510,
        0xffffffffff135375, 0xfffffff985875a21, 0xffffa21039379759,
        0xffff8707505a0a20, 0xfffffff23a37a75a, 0xfffffff985875b32,
        0xffff0292b9b79759, 0xffffb32870750510, 0xfffffff1252b5b75,
        0xffff985875ab1b31, 0xf0191a9ab9b79759, 0xf8707505a0ab0b30,
        0xffffffffffab5b75, 0xfffffffffffff56a, 0xffffffffff56a038,
        0xffffffffff56a910, 0xfffffff56a139389, 0xffffffffff561621,
        0xfffffff561621038, 0xfffffff950560620, 0xffff236386896956,
        0xffffffffff56ab32, 0xfffffff56a0282b8, 0xfffffff56ab32910,
        0xffff56a1292b9b89, 0xfffffff5616b1b31, 0xffff0181585686b8,
        0xffff9505606b0b30, 0xfffffff5696b9b89, 0xffffffffff56a874,
        0xfffffff56a034374, 0xfffffff56a874910, 0xffff56a139379749,
        0xfffffff874561621, 0xffff561621034374, 0xffff874950560620,
        0xf236376746496956, 0xfffffff56a874b32, 0xffff56a0242b4b74,
        0xffff56a874b32910, 0xf56a1292b9b79749, 0xffff8745616b1b31,
        0xf0141545646b4b74, 0xf8749505606b0b30, 0xffff9545646b4b74,
        0xffffffffff4696a9, 0xfffffff4696a9038, 0xfffffff4606a0a10,
        0xffff13a38a84a46a, 0xfffffff941461621, 0xffff941461621038,
        0xffffffffff460620, 0xfffffff236386846, 0xfffffff4696a9b32,
        0xffff4696a90282b8, 0xffffb324606a0a10, 0xf12a2bab8a84a46a,
        0xffff9414616b1b31, 0xf0181989484686b8, 0xfffffff4606b0b30,
        0xffffffffff4686b8, 0xfffffffa96986876, 0xffff0393797696a9,
        0xffff8707606a0a10, 0xfffffff13a37a76a, 0xffff981871761621,
        0xf039379769629219, 0xfffffff870760620, 0xffffffffff236376,
        0xffffa96986876b32, 0xf0292b9b797696a9, 0xfb328707606a0a10,
        0xffff12a2bab7a76a, 0xf9818717616b1b31, 0xffffffffffb76019,
        0xffff8707606b0b30, 0xfffffffffffffb76, 0xfffffffffffff67b,
        0xffffffffff67b038, 0xffffffffff67b910, 0xfffffff67b139389,
        0xffffffffff67ba21, 0xfffffff67ba21038, 0xfffffff67b9a0a20,
        0xffff67b23a38a89a, 0xffffffffff672732, 0xfffffff028268678,
        0xfffffff672732910, 0xffff129269679789, 0xfffffffa61671731,
        0xffff0181a8a68678, 0xffff9a0a60670730, 0xfffffff67a78a89a,
        0xffffffffff8b4b64, 0xfffffff0343b4b64, 0xfffffff8b4b64910,
        0xffff1393b9b69649, 0xfffffff8b4b64a21, 0xffffa210343b4b64,
        0xffff8b4b649a0a20, 0xf23a3bab6a64a49a, 0xfffffff642482832,
        0xffffffffff024264, 0xffff642482832910, 0xfffffff129269649,
        0xffffa61641481831, 0xfffffff0141a4a64, 0xf9a0a60640480830,
        0xffffffffff9a4a64, 0xffffffffff67b459, 0xfffffff67b459038,
        0xfffffff67b450510, 0xffff67b135385845, 0xfffffff67b459a21,
        0xffff67b459a21038, 0xffff67b4505a0a20, 0xf67b23a38a84a45a,
        0xfffffff459672732, 0xffff459028268678, 0xffff672732450510,
        0xf125265675785845, 0xffff459a61671731, 0xf4590181a8a68678,
        0xf4505a0a60670730, 0xffff4585a8a68678, 0xfffffff9858b5b65,
        0xffff0393b9b69659, 0xffff8b0b60650510, 0xfffffff1353b5b65,
        0xffff9858b5b65a21, 0xfa210393b9b69659, 0xf8b0b606505a0a20,
        0xffff23a3bab6a65a, 0xffff652592982832, 0xfffffff029269659,
        0xf830320260650510, 0xffffffffff125265, 0xfa61651591981831,
        0xffff0191a9a69659, 0xffffffffffa65830, 0xfffffffffffffa65,
        0xffffffffff57a7ba, 0xfffffff57a7ba038, 0xfffffff57a7ba910,
        0xffff57a7ba139389, 0xfffffff5717b1b21, 0xffff5717b1b21038,
        0xffff9505707b0b20, 0xf23b38b89b95b57b, 0xfffffffa52572732,
        0xffff0282a8a58578, 0xffffa52572732910, 0xf1292a9a59579789,
        0xffffffffff571731, 0xfffffff018158578, 0xfffffff950570730,
        0xffffffffff579789, 0xfffffff8b4ba4a54, 0xffff0343b4ba4a54,
        0xffff8b4ba4a54910, 0xf1393b9ba9a59549, 0xffff5414818b1b21,
        0xf0343b4b24214154, 0xf9505404808b0b20, 0xffffffffff95423b,
        0xffffa52542482832, 0xfffffff0242a4a54, 0xfa52542482832910,
        0xffff1292a9a59549, 0xfffffff541481831, 0xffffffffff014154,
        0xffff950540480830, 0xfffffffffffff954, 0xfffffff4797b9ba9,
        0xffff4797b9ba9038, 0xffff4707b0ba0a10, 0xf13a38a84a47a7ba,
        0xffff9414717b1b21, 0xf9414717b1b21038, 0xfffffff4707b0b20,
        0xffff23b38b84b47b, 0xffffa92942472732, 0xf0282a8a98948478,
        0xf4707303202a0a10, 0xffffffffff47812a, 0xfffffff941471731,
        0xffff018198948478, 0xffffffffff470730, 0xfffffffffffff478,
        0xffffffffffba8a98, 0xfffffff0393b9ba9, 0xfffffff8b0ba0a10,
        0xffffffffff13a3ba, 0xfffffff9818b1b21, 0xffff0393b9b29219,
        0xffffffffff8b0b20, 0xfffffffffffff23b, 0xfffffffa92982832,
        0xffffffffff0292a9, 0xffff8303202a0a10, 0xfffffffffffff12a,
        0xffffffffff981831, 0xfffffffffffff019, 0xfffffffffffff830,
        0xffffffffffffffff,
        ];
        proof {
            assert(v@ =~= tri_row_seq());
        }
        v
    }
}

} // verus!
