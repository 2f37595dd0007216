//! The Gauss-Kronrod rule descriptors.
//!
//! Rule keys 1 to 6 select the 15-, 21-, 31-, 41-, 51- and 61-point
//! Kronrod rules. For each of the six rules, `xgk` holds the bit patterns
//! of the positive Kronrod abscissae on `[-1, 1]` followed by the centre
//! `0.0` (so `m + 1` entries for a rule of `2m + 1` points), `wgk` the
//! Kronrod weights at those abscissae, and `wg` the weights of the
//! embedded Gauss rule. The caller turns the patterns
//! into doubles with `f64::from_bits`; the weights and abscissae are then
//! bit-identical to the published coefficient sets.

use vstd::prelude::*;

verus! {

/// Largest admitted bound on the number of subintervals: keeps the
/// evaluation count `(10*keyf + 1) * (2*last - 1)` inside `i32`.
pub const LIMIT_MAX: usize = 16_000_000;

/// The clamped rule key: keys at or below zero select rule 1, keys at or
/// above seven select rule 6.
pub open spec fn clamped_key(key: i32) -> i32 {
    if key <= 0 {
        1
    } else if key >= 7 {
        6
    } else {
        key
    }
}

/// Number of integrand evaluations after `last` subintervals: each
/// subinterval costs one application of the rule, and the count follows the
/// fixed formulas of the engine.
pub open spec fn neval_of(keyf: i32, last: int) -> int {
    if keyf == 1 {
        30 * last + 15
    } else {
        (10 * keyf + 1) * (2 * last - 1)
    }
}

/// Clamps a user-supplied rule key into 1 to 6.
pub fn clamp_key(key: i32) -> (keyf: i32)
    ensures
        keyf == clamped_key(key),
        1 <= keyf <= 6,
{
    if key <= 0 {
        1
    } else if key >= 7 {
        6
    } else {
        key
    }
}

/// The evaluation count reported with a result.
pub fn neval_for(keyf: i32, last: usize) -> (neval: i32)
    requires
        1 <= keyf <= 6,
        1 <= last <= LIMIT_MAX + 128,
    ensures
        neval == neval_of(keyf, last as int),
{
    if keyf == 1 {
        30 * (last as i32) + 15
    } else {
        proof {
            assert((10 * keyf + 1) * (2 * (last as int) - 1) <= 61 * (2 * (last as int) - 1))
                by (nonlinear_arith)
                requires
                    1 <= keyf <= 6,
                    1 <= last as int,
            ;
        }
        (10 * keyf + 1) * (2 * (last as i32) - 1)
    }
}


/// Abscissae of the 15-point Kronrod rule (7 positive plus the centre).
pub open spec fn xgk15_bits() -> Seq<u64> {
    seq![
        0x3FEFBA009D4D09B1, 0x3FEE5F178E7C6229, 0x3FEBACF827B9BB3E,
        0x3FE7BA9F9BE3A1D6, 0x3FE2C13A049DFA24, 0x3FD9F95DF119FD62,
        0x3FCA98B2892E0C77, 0x0000000000000000,
    ]
}

/// Exec copy of `xgk15_bits`.
pub fn xgk15() -> (r: Vec<u64>)
    ensures
        r@ == xgk15_bits(),
{
    let r: Vec<u64> = vec![
        0x3FEFBA009D4D09B1, 0x3FEE5F178E7C6229, 0x3FEBACF827B9BB3E,
        0x3FE7BA9F9BE3A1D6, 0x3FE2C13A049DFA24, 0x3FD9F95DF119FD62,
        0x3FCA98B2892E0C77, 0x0000000000000000,
    ];
    proof {
        assert(r@ =~= xgk15_bits());
    }
    r
}

/// Weights of the 15-point Kronrod rule.
pub open spec fn wgk15_bits() -> Seq<u64> {
    seq![
        0x3F977C5B67D57470, 0x3FB026CDAA7B61C4, 0x3FBAD384A34814C6,
        0x3FC200ED0F46E8C1, 0x3FC5A1F266E47D5C, 0x3FC85D6861C80EB1,
        0x3FCA2ADBCBEC9CD8, 0x3FCAD04F9087090F,
    ]
}

/// Exec copy of `wgk15_bits`.
pub fn wgk15() -> (r: Vec<u64>)
    ensures
        r@ == wgk15_bits(),
{
    let r: Vec<u64> = vec![
        0x3F977C5B67D57470, 0x3FB026CDAA7B61C4, 0x3FBAD384A34814C6,
        0x3FC200ED0F46E8C1, 0x3FC5A1F266E47D5C, 0x3FC85D6861C80EB1,
        0x3FCA2ADBCBEC9CD8, 0x3FCAD04F9087090F,
    ];
    proof {
        assert(r@ =~= wgk15_bits());
    }
    r
}

/// Weights of the embedded 7-point Gauss rule.
pub open spec fn wg15_bits() -> Seq<u64> {
    seq![
        0x3FC092F69F826D57, 0x3FD1E6B1713D8644, 0x3FD86FE74EE32B3D,
        0x3FDABFD7E03C2FA6,
    ]
}

/// Exec copy of `wg15_bits`.
pub fn wg15() -> (r: Vec<u64>)
    ensures
        r@ == wg15_bits(),
{
    let r: Vec<u64> = vec![
        0x3FC092F69F826D57, 0x3FD1E6B1713D8644, 0x3FD86FE74EE32B3D,
        0x3FDABFD7E03C2FA6,
    ];
    proof {
        assert(r@ =~= wg15_bits());
    }
    r
}

/// Abscissae of the 21-point Kronrod rule (10 positive plus the centre).
pub open spec fn xgk21_bits() -> Seq<u64> {
    seq![
        0x3FEFDC6C69272AE5, 0x3FEF2A3E062AF2D8, 0x3FEDC3D9A4B011C6,
        0x3FEBAE995E9CB2F3, 0x3FE8FC7574FA6C62, 0x3FE5BDB9228DE198,
        0x3FE2021B401FC120, 0x3FDBBCC009016ADC, 0x3FD2D755295EA137,
        0x3FC30E507891E27A, 0x0000000000000000,
    ]
}

/// Exec copy of `xgk21_bits`.
pub fn xgk21() -> (r: Vec<u64>)
    ensures
        r@ == xgk21_bits(),
{
    let r: Vec<u64> = vec![
        0x3FEFDC6C69272AE5, 0x3FEF2A3E062AF2D8, 0x3FEDC3D9A4B011C6,
        0x3FEBAE995E9CB2F3, 0x3FE8FC7574FA6C62, 0x3FE5BDB9228DE198,
        0x3FE2021B401FC120, 0x3FDBBCC009016ADC, 0x3FD2D755295EA137,
        0x3FC30E507891E27A, 0x0000000000000000,
    ];
    proof {
        assert(r@ =~= xgk21_bits());
    }
    r
}

/// Weights of the 21-point Kronrod rule.
pub open spec fn wgk21_bits() -> Seq<u64> {
    seq![
        0x3F87F35BDBCA883F, 0x3FA0AB76A4A94042, 0x3FAC08F7021999A2,
        0x3FB335CCD53722E5, 0x3FB7D711DDDCB389, 0x3FBC00CBFDA8818F,
        0x3FBF9D2B8F5D2DDE, 0x3FC13E26D16948D4, 0x3FC2467B616C0E05,
        0x3FC2E91D6FF21EB5, 0x3FC321082B7CD10F,
    ]
}

/// Exec copy of `wgk21_bits`.
pub fn wgk21() -> (r: Vec<u64>)
    ensures
        r@ == wgk21_bits(),
{
    let r: Vec<u64> = vec![
        0x3F87F35BDBCA883F, 0x3FA0AB76A4A94042, 0x3FAC08F7021999A2,
        0x3FB335CCD53722E5, 0x3FB7D711DDDCB389, 0x3FBC00CBFDA8818F,
        0x3FBF9D2B8F5D2DDE, 0x3FC13E26D16948D4, 0x3FC2467B616C0E05,
        0x3FC2E91D6FF21EB5, 0x3FC321082B7CD10F,
    ];
    proof {
        assert(r@ =~= wgk21_bits());
    }
    r
}

/// Weights of the embedded 10-point Gauss rule.
pub open spec fn wg21_bits() -> Seq<u64> {
    seq![
        0x3FB1115F8B62DC1F, 0x3FC32138C878EFE5, 0x3FCC0B059D00BC31,
        0x3FD13BAA7A559BFE, 0x3FD2E9DE7014D6EF,
    ]
}

/// Exec copy of `wg21_bits`.
pub fn wg21() -> (r: Vec<u64>)
    ensures
        r@ == wg21_bits(),
{
    let r: Vec<u64> = vec![
        0x3FB1115F8B62DC1F, 0x3FC32138C878EFE5, 0x3FCC0B059D00BC31,
        0x3FD13BAA7A559BFE, 0x3FD2E9DE7014D6EF,
    ];
    proof {
        assert(r@ =~= wg21_bits());
    }
    r
}

/// Abscissae of the 31-point Kronrod rule (15 positive plus the centre).
pub open spec fn xgk31_bits() -> Seq<u64> {
    seq![
        0x3FEFEFA284471223, 0x3FEF9DA27C32E6D0, 0x3FEEF7B7F0234D2E,
        0x3FEDFE24C4F8B448, 0x3FECB6641BC8EA03, 0x3FEB248221FFFD63,
        0x3FE94B1BBDBB28B7, 0x3FE72E6E181AB3C4, 0x3FE4D4F71E35996D,
        0x3FE245676F08F3A4, 0x3FDF0B94CD0DEC85, 0x3FD939C69257D6B6,
        0x3FD325C3E695C106, 0x3FC9C0BA62EF04B5, 0x3FB9E4724DAA6D9E,
        0x0000000000000000,
    ]
}

/// Exec copy of `xgk31_bits`.
pub fn xgk31() -> (r: Vec<u64>)
    ensures
        r@ == xgk31_bits(),
{
    let r: Vec<u64> = vec![
        0x3FEFEFA284471223, 0x3FEF9DA27C32E6D0, 0x3FEEF7B7F0234D2E,
        0x3FEDFE24C4F8B448, 0x3FECB6641BC8EA03, 0x3FEB248221FFFD63,
        0x3FE94B1BBDBB28B7, 0x3FE72E6E181AB3C4, 0x3FE4D4F71E35996D,
        0x3FE245676F08F3A4, 0x3FDF0B94CD0DEC85, 0x3FD939C69257D6B6,
        0x3FD325C3E695C106, 0x3FC9C0BA62EF04B5, 0x3FB9E4724DAA6D9E,
        0x0000000000000000,
    ];
    proof {
        assert(r@ =~= xgk31_bits());
    }
    r
}

/// Weights of the 31-point Kronrod rule.
pub open spec fn wgk31_bits() -> Seq<u64> {
    seq![
        0x3F7606B2430691F0, 0x3F8EBC7C97AD100F, 0x3F9A12688A63030D,
        0x3FA218EB0F435DEC, 0x3FA6D477C75A7046, 0x3FAB61EE2EF9BAB7,
        0x3FAFBFB7D37C673A, 0x3FB1E1F5AE8E0460, 0x3FB3AC6BB18FFCB1,
        0x3FB544C38A8F82F5, 0x3FB6AC28CA83CF6D, 0x3FB7D7250D880BAD,
        0x3FB8BD93E7CA79C3, 0x3FB96370E3230056, 0x3FB9CC0D76F2B149,
        0x3FB9F0C36A3B630F,
    ]
}

/// Exec copy of `wgk31_bits`.
pub fn wgk31() -> (r: Vec<u64>)
    ensures
        r@ == wgk31_bits(),
{
    let r: Vec<u64> = vec![
        0x3F7606B2430691F0, 0x3F8EBC7C97AD100F, 0x3F9A12688A63030D,
        0x3FA218EB0F435DEC, 0x3FA6D477C75A7046, 0x3FAB61EE2EF9BAB7,
        0x3FAFBFB7D37C673A, 0x3FB1E1F5AE8E0460, 0x3FB3AC6BB18FFCB1,
        0x3FB544C38A8F82F5, 0x3FB6AC28CA83CF6D, 0x3FB7D7250D880BAD,
        0x3FB8BD93E7CA79C3, 0x3FB96370E3230056, 0x3FB9CC0D76F2B149,
        0x3FB9F0C36A3B630F,
    ];
    proof {
        assert(r@ =~= wgk31_bits());
    }
    r
}

/// Weights of the embedded 15-point Gauss rule.
pub open spec fn wg31_bits() -> Seq<u64> {
    seq![
        0x3F9F7DC7227A291B, 0x3FB2038260B5D026, 0x3FBB6EC9635F1146,
        0x3FC1DD73B4963161, 0x3FC5484F30A86ED1, 0x3FC7D41FA76DC267,
        0x3FC96633F1FD02CE, 0x3FC9EE1575F9C980,
    ]
}

/// Exec copy of `wg31_bits`.
pub fn wg31() -> (r: Vec<u64>)
    ensures
        r@ == wg31_bits(),
{
    let r: Vec<u64> = vec![
        0x3F9F7DC7227A291B, 0x3FB2038260B5D026, 0x3FBB6EC9635F1146,
        0x3FC1DD73B4963161, 0x3FC5484F30A86ED1, 0x3FC7D41FA76DC267,
        0x3FC96633F1FD02CE, 0x3FC9EE1575F9C980,
    ];
    proof {
        assert(r@ =~= wg31_bits());
    }
    r
}

/// Descriptor of the 41-point Kronrod rule.
pub struct Qk41 {}

impl Qk41 {

    /// Abscissae of the 41-point rule (20 positive plus the centre).
    pub open spec fn xgk_bits() -> Seq<u64> {
        seq![
            0x3FEFF6A7373F8C5C, 0x3FEFC7B5A0C71CE0, 0x3FEF6883354D4953,
            0x3FEED8DBA7BD769F, 0x3FEE1B3811749B67, 0x3FED31064173FD92,
            0x3FEC1AD7F8A53D29, 0x3FEADA0BD5EFD6E7, 0x3FE970FAB8FA510D,
            0x3FE7E1F37346A54E, 0x3FE62F00BCCA07BD, 0x3FE45A8D3FA710DB,
            0x3FE2678CF03651C8, 0x3FE05905C13F7FF7, 0x3FDC63D4A1184386,
            0x3FD7EACCF15652C4, 0x3FD34DDEF947687D, 0x3FCD281636928BC0,
            0x3FC388936D3347C4, 0x3FB3973DF98B86B0, 0x0000000000000000,
        ]
    }

    /// Exec copy of `xgk_bits`.
    pub fn xgk() -> (r: Vec<u64>)
        ensures
            r@ == Self::xgk_bits(),
    {
        let r: Vec<u64> = vec![
            0x3FEFF6A7373F8C5C, 0x3FEFC7B5A0C71CE0, 0x3FEF6883354D4953,
            0x3FEED8DBA7BD769F, 0x3FEE1B3811749B67, 0x3FED31064173FD92,
            0x3FEC1AD7F8A53D29, 0x3FEADA0BD5EFD6E7, 0x3FE970FAB8FA510D,
            0x3FE7E1F37346A54E, 0x3FE62F00BCCA07BD, 0x3FE45A8D3FA710DB,
            0x3FE2678CF03651C8, 0x3FE05905C13F7FF7, 0x3FDC63D4A1184386,
            0x3FD7EACCF15652C4, 0x3FD34DDEF947687D, 0x3FCD281636928BC0,
            0x3FC388936D3347C4, 0x3FB3973DF98B86B0, 0x0000000000000000,
        ];
        proof {
            assert(r@ =~= Self::xgk_bits());
        }
        r
    }

    /// Weights of the 41-point Kronrod rule.
    pub open spec fn wgk_bits() -> Seq<u64> {
        seq![
            0x3F692DC5B1AE9A2E, 0x3F819D04AE2253A2, 0x3F8DF45334FEE0C5,
            0x3F94E0B094F0689B, 0x3F9A80D895892EDC, 0x3FA004E3CEC648EA,
            0x3FA2BD41E8476F40, 0x3FA5559F6068DD56, 0x3FA7C64E12A20ABC,
            0x3FAA15683DD277A7, 0x3FAC428868BD8602, 0x3FAE43D97B34C88C,
            0x3FB00A0AE6494B3A, 0x3FB0DA8941A25CAA, 0x3FB192F59D244D10,
            0x3FB2309F6965EEC2, 0x3FB2B223AA956842, 0x3FB317DD02AFD144,
            0x3FB3615EB5B71C80, 0x3FB38D7FFBCA307E, 0x3FB39C1AB089C29F,
        ]
    }

    /// Exec copy of `wgk_bits`.
    pub fn wgk() -> (r: Vec<u64>)
        ensures
            r@ == Self::wgk_bits(),
    {
        let r: Vec<u64> = vec![
            0x3F692DC5B1AE9A2E, 0x3F819D04AE2253A2, 0x3F8DF45334FEE0C5,
            0x3F94E0B094F0689B, 0x3F9A80D895892EDC, 0x3FA004E3CEC648EA,
            0x3FA2BD41E8476F40, 0x3FA5559F6068DD56, 0x3FA7C64E12A20ABC,
            0x3FAA15683DD277A7, 0x3FAC428868BD8602, 0x3FAE43D97B34C88C,
            0x3FB00A0AE6494B3A, 0x3FB0DA8941A25CAA, 0x3FB192F59D244D10,
            0x3FB2309F6965EEC2, 0x3FB2B223AA956842, 0x3FB317DD02AFD144,
            0x3FB3615EB5B71C80, 0x3FB38D7FFBCA307E, 0x3FB39C1AB089C29F,
        ];
        proof {
            assert(r@ =~= Self::wgk_bits());
        }
        r
    }

    /// Weights of the embedded 20-point Gauss rule.
    pub open spec fn wg_bits() -> Seq<u64> {
        seq![
            0x3F9209680274E8AF, 0x3FA4C9B5EA53B67F, 0x3FB00B467DF7E475,
            0x3FB5519FE196E24A, 0x3FBA1817A317A821, 0x3FBE41FF31573B48,
            0x3FC0DB2C5DB26DFF, 0x3FC230348F34A535, 0x3FC31819B52C5992,
            0x3FC38D6C490A3370,
        ]
    }

    /// Exec copy of `wg_bits`.
    pub fn wg() -> (r: Vec<u64>)
        ensures
            r@ == Self::wg_bits(),
    {
        let r: Vec<u64> = vec![
            0x3F9209680274E8AF, 0x3FA4C9B5EA53B67F, 0x3FB00B467DF7E475,
            0x3FB5519FE196E24A, 0x3FBA1817A317A821, 0x3FBE41FF31573B48,
            0x3FC0DB2C5DB26DFF, 0x3FC230348F34A535, 0x3FC31819B52C5992,
            0x3FC38D6C490A3370,
        ];
        proof {
            assert(r@ =~= Self::wg_bits());
        }
        r
    }

}

/// Abscissae of the 51-point Kronrod rule (25 positive plus the centre).
pub open spec fn xgk51_bits() -> Seq<u64> {
    seq![
        0x3FEFF9F485A2697E, 0x3FEFDB9A4A51C2F7, 0x3FEF9DFD3E19A3BC,
        0x3FEF40D4B23B4175, 0x3FEEC58CCAC15BFA, 0x3FEE2CD9020C6B0C,
        0x3FED76C2A780AE15, 0x3FECA3C642223461, 0x3FEBB504E798B5D3,
        0x3FEAAB8FE033D775, 0x3FE9882EA197A4CF, 0x3FE84BDA14FDC6C2,
        0x3FE6F7F1416DBF85, 0x3FE58DDB0E88EDD5, 0x3FE40ED40D81A8A2,
        0x3FE27C36F82FEC31, 0x3FE0D7A81F68D10F, 0x3FDE45AD3F9E97D3,
        0x3FDABEA2547FB738, 0x3FD71D72726B05D8, 0x3FD365D1AA5E0143,
        0x3FCF3707B1145CBD, 0x3FC7841A2A3C0F14, 0x3FBF740F7C98999E,
        0x3FAF82C22B846D25, 0x0000000000000000,
    ]
}

/// Exec copy of `xgk51_bits`.
pub fn xgk51() -> (r: Vec<u64>)
    ensures
        r@ == xgk51_bits(),
{
    let r: Vec<u64> = vec![
        0x3FEFF9F485A2697E, 0x3FEFDB9A4A51C2F7, 0x3FEF9DFD3E19A3BC,
        0x3FEF40D4B23B4175, 0x3FEEC58CCAC15BFA, 0x3FEE2CD9020C6B0C,
        0x3FED76C2A780AE15, 0x3FECA3C642223461, 0x3FEBB504E798B5D3,
        0x3FEAAB8FE033D775, 0x3FE9882EA197A4CF, 0x3FE84BDA14FDC6C2,
        0x3FE6F7F1416DBF85, 0x3FE58DDB0E88EDD5, 0x3FE40ED40D81A8A2,
        0x3FE27C36F82FEC31, 0x3FE0D7A81F68D10F, 0x3FDE45AD3F9E97D3,
        0x3FDABEA2547FB738, 0x3FD71D72726B05D8, 0x3FD365D1AA5E0143,
        0x3FCF3707B1145CBD, 0x3FC7841A2A3C0F14, 0x3FBF740F7C98999E,
        0x3FAF82C22B846D25, 0x0000000000000000,
    ];
    proof {
        assert(r@ =~= xgk51_bits());
    }
    r
}

/// Weights of the 51-point Kronrod rule.
pub open spec fn wgk51_bits() -> Seq<u64> {
    seq![
        0x3F6047D89A4F19E0, 0x3F76C81BC9FB9C7C, 0x3F8367172EDAB5F4,
        0x3F8B1B989C23838A, 0x3F91408DE8475910, 0x3F94ED028B0343EE,
        0x3F9896102CA47518, 0x3F9C227D59F2B9C8, 0x3F9F880448C00BB0,
        0x3FA168BA2B0B8F15, 0x3FA300E76857698D, 0x3FA485DDFF46DB07,
        0x3FA5F36DF67F07DC, 0x3FA74C2866D8237B, 0x3FA8912AC794B080,
        0x3FA9BDFEF6BDAC8F, 0x3FAACF4EE4201A91, 0x3FABC6CDD948E23B,
        0x3FACA595B0C0AFBC, 0x3FAD6865D0B2EF17, 0x3FAE0C92E09E2686,
        0x3FAE93AA193256B0, 0x3FAEFF0709EA609D, 0x3FAF4C3C6C2D093B,
        0x3FAF7926DC49B782, 0x3FAF87855F5314D7,
    ]
}

/// Exec copy of `wgk51_bits`.
pub fn wgk51() -> (r: Vec<u64>)
    ensures
        r@ == wgk51_bits(),
{
    let r: Vec<u64> = vec![
        0x3F6047D89A4F19E0, 0x3F76C81BC9FB9C7C, 0x3F8367172EDAB5F4,
        0x3F8B1B989C23838A, 0x3F91408DE8475910, 0x3F94ED028B0343EE,
        0x3F9896102CA47518, 0x3F9C227D59F2B9C8, 0x3F9F880448C00BB0,
        0x3FA168BA2B0B8F15, 0x3FA300E76857698D, 0x3FA485DDFF46DB07,
        0x3FA5F36DF67F07DC, 0x3FA74C2866D8237B, 0x3FA8912AC794B080,
        0x3FA9BDFEF6BDAC8F, 0x3FAACF4EE4201A91, 0x3FABC6CDD948E23B,
        0x3FACA595B0C0AFBC, 0x3FAD6865D0B2EF17, 0x3FAE0C92E09E2686,
        0x3FAE93AA193256B0, 0x3FAEFF0709EA609D, 0x3FAF4C3C6C2D093B,
        0x3FAF7926DC49B782, 0x3FAF87855F5314D7,
    ];
    proof {
        assert(r@ =~= wgk51_bits());
    }
    r
}

/// Weights of the embedded 25-point Gauss rule.
pub open spec fn wg51_bits() -> Seq<u64> {
    seq![
        0x3F8755A1BF835241, 0x3F9AFCCD36646F49, 0x3FA4F5FA2650DC2F,
        0x3FAC1C77E339DFB8, 0x3FB16AF5D2993100, 0x3FB48419D7047213,
        0x3FB74DA0D03A8230, 0x3FB9BCB95550B7C7, 0x3FBBC7F12E17567F,
        0x3FBD6759D2B4D1AD, 0x3FBE94A725B474A6, 0x3FBF4B47DED39736,
        0x3FBF8877426815BE,
    ]
}

/// Exec copy of `wg51_bits`.
pub fn wg51() -> (r: Vec<u64>)
    ensures
        r@ == wg51_bits(),
{
    let r: Vec<u64> = vec![
        0x3F8755A1BF835241, 0x3F9AFCCD36646F49, 0x3FA4F5FA2650DC2F,
        0x3FAC1C77E339DFB8, 0x3FB16AF5D2993100, 0x3FB48419D7047213,
        0x3FB74DA0D03A8230, 0x3FB9BCB95550B7C7, 0x3FBBC7F12E17567F,
        0x3FBD6759D2B4D1AD, 0x3FBE94A725B474A6, 0x3FBF4B47DED39736,
        0x3FBF8877426815BE,
    ];
    proof {
        assert(r@ =~= wg51_bits());
    }
    r
}

/// Descriptor of the 61-point Kronrod rule.
pub struct Qk61VecNorm2 {}

impl Qk61VecNorm2 {

    /// Abscissae of the 61-point rule (30 positive plus the centre).
    pub open spec fn xgk_bits() -> Seq<u64> {
        seq![
            0x3FEFFBC6BAC0EB33, 0x3FEFE68D29F64696, 0x3FEFBB70EDA843B7,
            0x3FEF7A35927355B1, 0x3FEF23C4D78B1377, 0x3FEEB87FC62F7B5D,
            0x3FEE3850C16BF174, 0x3FEDA36E4828656F, 0x3FECFA74DF9673E9,
            0x3FEC3DEF97BEF284, 0x3FEB6E39AB814AC0, 0x3FEA8BCD7F6A16EA,
            0x3FE9975ED491C7EF, 0x3FE891A1FA2FE827, 0x3FE77B354C0BB99A,
            0x3FE654CA8F944F8B, 0x3FE51F3861792DA4, 0x3FE3DB59B9C8042D,
            0x3FE289FF051EF6D5, 0x3FE12C0667D07155, 0x3FDF84CCCBD8A5C6,
            0x3FDC9C338717EA9A, 0x3FD9A02C95B187AD, 0x3FD692B6D7532F8F,
            0x3FD375EF72D6BBCD, 0x3FD04BF8AD8FAEF5, 0x3FCA2DE107AE38B0,
            0x3FC3B2026364C35A, 0x3FBA518E345E7929, 0x3FAA5A8470E14134,
            0x0000000000000000,
        ]
    }

    /// Exec copy of `xgk_bits`.
    pub fn xgk() -> (r: Vec<u64>)
        ensures
            r@ == Self::xgk_bits(),
    {
        let r: Vec<u64> = vec![
            0x3FEFFBC6BAC0EB33, 0x3FEFE68D29F64696, 0x3FEFBB70EDA843B7,
            0x3FEF7A35927355B1, 0x3FEF23C4D78B1377, 0x3FEEB87FC62F7B5D,
            0x3FEE3850C16BF174, 0x3FEDA36E4828656F, 0x3FECFA74DF9673E9,
            0x3FEC3DEF97BEF284, 0x3FEB6E39AB814AC0, 0x3FEA8BCD7F6A16EA,
            0x3FE9975ED491C7EF, 0x3FE891A1FA2FE827, 0x3FE77B354C0BB99A,
            0x3FE654CA8F944F8B, 0x3FE51F3861792DA4, 0x3FE3DB59B9C8042D,
            0x3FE289FF051EF6D5, 0x3FE12C0667D07155, 0x3FDF84CCCBD8A5C6,
            0x3FDC9C338717EA9A, 0x3FD9A02C95B187AD, 0x3FD692B6D7532F8F,
            0x3FD375EF72D6BBCD, 0x3FD04BF8AD8FAEF5, 0x3FCA2DE107AE38B0,
            0x3FC3B2026364C35A, 0x3FBA518E345E7929, 0x3FAA5A8470E14134,
            0x0000000000000000,
        ];
        proof {
            assert(r@ =~= Self::xgk_bits());
        }
        r
    }

    /// Weights of the 61-point Kronrod rule.
    pub open spec fn wgk_bits() -> Seq<u64> {
        seq![
            0x3F56C1F21A357925, 0x3F6FDEE369D504E0, 0x3F7B28CC077E8042,
            0x3F82FDDE86EA114D, 0x3F8836AA3ED4BCE8, 0x3F8D6DE07247F127,
            0x3F9153B5A6BEB171, 0x3F93E14CF6081947, 0x3F965A16AFF57B40,
            0x3F98C59167E90DC4, 0x3F9B256CF4F3C501, 0x3F9D71B38C4B3442,
            0x3F9FA626F1C20D5E, 0x3FA0E2F1B8F929EE, 0x3FA1E8CFD1BB84B8,
            0x3FA2E23ECBF51A9B, 0x3FA3CDBA0D0101DC, 0x3FA4ABF8B8C69E1D,
            0x3FA57D1124964004, 0x3FA63F6949E4141C, 0x3FA6F1F729E5BD54,
            0x3FA79513941AF47F, 0x3FA828B436B7D21B, 0x3FA8ABD138C0A5FB,
            0x3FA91DCB3E35B83C, 0x3FA97ED1DF9A3DD3, 0x3FA9CECE0FE63EA3,
            0x3FAA0D2DC2B199CC, 0x3FAA39B5F1B9E3BB, 0x3FAA54868874E0F6,
            0x3FAA5D8465A1B8D3,
        ]
    }

    /// Exec copy of `wgk_bits`.
    pub fn wgk() -> (r: Vec<u64>)
        ensures
            r@ == Self::wgk_bits(),
    {
        let r: Vec<u64> = vec![
            0x3F56C1F21A357925, 0x3F6FDEE369D504E0, 0x3F7B28CC077E8042,
            0x3F82FDDE86EA114D, 0x3F8836AA3ED4BCE8, 0x3F8D6DE07247F127,
            0x3F9153B5A6BEB171, 0x3F93E14CF6081947, 0x3F965A16AFF57B40,
            0x3F98C59167E90DC4, 0x3F9B256CF4F3C501, 0x3F9D71B38C4B3442,
            0x3F9FA626F1C20D5E, 0x3FA0E2F1B8F929EE, 0x3FA1E8CFD1BB84B8,
            0x3FA2E23ECBF51A9B, 0x3FA3CDBA0D0101DC, 0x3FA4ABF8B8C69E1D,
            0x3FA57D1124964004, 0x3FA63F6949E4141C, 0x3FA6F1F729E5BD54,
            0x3FA79513941AF47F, 0x3FA828B436B7D21B, 0x3FA8ABD138C0A5FB,
            0x3FA91DCB3E35B83C, 0x3FA97ED1DF9A3DD3, 0x3FA9CECE0FE63EA3,
            0x3FAA0D2DC2B199CC, 0x3FAA39B5F1B9E3BB, 0x3FAA54868874E0F6,
            0x3FAA5D8465A1B8D3,
        ];
        proof {
            assert(r@ =~= Self::wgk_bits());
        }
        r
    }

    /// Weights of the embedded 30-point Gauss rule.
    pub open spec fn wg_bits() -> Seq<u64> {
        seq![
            0x3F8051A0B16F2427, 0x3F92E8DFB5E00194, 0x3F9D79BD0BEF65ED,
            0x3FA3DD7CDE654010, 0x3FA8C83C31B159ED, 0x3FAD6FBE3365A0DE,
            0x3FB0E3AFE7B90638, 0x3FB2E1ABEB620F4E, 0x3FB4AC6B18F8353B,
            0x3FB63F10800ED9CB, 0x3FB79557743C7FBD, 0x3FB8AB9F1E859C52,
            0x3FB97EF454512AC4, 0x3FBA0D1997EEA523, 0x3FBA548D2C7C13A9,
        ]
    }

    /// Exec copy of `wg_bits`.
    pub fn wg() -> (r: Vec<u64>)
        ensures
            r@ == Self::wg_bits(),
    {
        let r: Vec<u64> = vec![
            0x3F8051A0B16F2427, 0x3F92E8DFB5E00194, 0x3F9D79BD0BEF65ED,
            0x3FA3DD7CDE654010, 0x3FA8C83C31B159ED, 0x3FAD6FBE3365A0DE,
            0x3FB0E3AFE7B90638, 0x3FB2E1ABEB620F4E, 0x3FB4AC6B18F8353B,
            0x3FB63F10800ED9CB, 0x3FB79557743C7FBD, 0x3FB8AB9F1E859C52,
            0x3FB97EF454512AC4, 0x3FBA0D1997EEA523, 0x3FBA548D2C7C13A9,
        ];
        proof {
            assert(r@ =~= Self::wg_bits());
        }
        r
    }

}

} // verus!
