//! The built-in instances of the symmetric travelling salesperson problem, by name.

use vstd::prelude::*;

verus! {

/// A built-in instance of the symmetric travelling salesperson problem of the TSPLIB.
#[derive(Clone, Copy, Debug, PartialEq, Eq, Structural)]
pub enum Instances {
    A280,
    ALI535,
    ATT48,
    ATT532,
    BAYG29,
    BAYS29,
    BERLIN52,
    BIER127,
    BRAZIL58,
    BRD14051,
    BRG180,
    BURMA14,
    CH130,
    CH150,
    D198,
    D493,
    D657,
    D1291,
    D1655,
    D2103,
    D15112,
    D18512,
    DANTZIG42,
    DSJ1000,
    EIL51,
    EIL76,
    EIL101,
    FL417,
    FL1400,
    FL1577,
    FL3795,
    FNL4461,
    FRI26,
    GIL262,
    GR17,
    GR21,
    GR24,
    GR48,
    GR96,
    GR120,
    GR137,
    GR202,
    GR229,
    GR431,
    GR666,
    HK48,
    KROA100,
    KROA150,
    KROA200,
    KROB100,
    KROB150,
    KROB200,
    KROC100,
    KROD100,
    KROE100,
    LIN105,
    LIN318,
    LINHP318,
    NRW1379,
    P654,
    PA561,
    PCB442,
    PCB1173,
    PCB3038,
    PLA7397,
    PLA33810,
    PLA85900,
    PR76,
    PR107,
    PR124,
    PR136,
    PR144,
    PR152,
    PR226,
    PR264,
    PR299,
    PR439,
    PR1002,
    PR2392,
    RAT99,
    RAT195,
    RAT575,
    RAT783,
    RD100,
    RD400,
    RL1304,
    RL1323,
    RL1889,
    RL5915,
    RL5934,
    RL11849,
    SI175,
    SI535,
    SI1032,
    ST70,
    SWISS42,
    TS225,
    TSP225,
    U159,
    U574,
    U724,
    U1060,
    U1432,
    U1817,
    U2152,
    U2319,
    ULYSSES16,
    ULYSSES22,
    USA13509,
    VM1084,
    VM1748,
}

impl Instances {
    /// The name of the instance, as the TSPLIB writes it.
    pub open spec fn spec_name(self) -> Seq<char> {
        match self {
            Instances::A280 => "A280"@,
            Instances::ALI535 => "ALI535"@,
            Instances::ATT48 => "ATT48"@,
            Instances::ATT532 => "ATT532"@,
            Instances::BAYG29 => "BAYG29"@,
            Instances::BAYS29 => "BAYS29"@,
            Instances::BERLIN52 => "BERLIN52"@,
            Instances::BIER127 => "BIER127"@,
            Instances::BRAZIL58 => "BRAZIL58"@,
            Instances::BRD14051 => "BRD14051"@,
            Instances::BRG180 => "BRG180"@,
            Instances::BURMA14 => "BURMA14"@,
            Instances::CH130 => "CH130"@,
            Instances::CH150 => "CH150"@,
            Instances::D198 => "D198"@,
            Instances::D493 => "D493"@,
            Instances::D657 => "D657"@,
            Instances::D1291 => "D1291"@,
            Instances::D1655 => "D1655"@,
            Instances::D2103 => "D2103"@,
            Instances::D15112 => "D15112"@,
            Instances::D18512 => "D18512"@,
            Instances::DANTZIG42 => "DANTZIG42"@,
            Instances::DSJ1000 => "DSJ1000"@,
            Instances::EIL51 => "EIL51"@,
            Instances::EIL76 => "EIL76"@,
            Instances::EIL101 => "EIL101"@,
            Instances::FL417 => "FL417"@,
            Instances::FL1400 => "FL1400"@,
            Instances::FL1577 => "FL1577"@,
            Instances::FL3795 => "FL3795"@,
            Instances::FNL4461 => "FNL4461"@,
            Instances::FRI26 => "FRI26"@,
            Instances::GIL262 => "GIL262"@,
            Instances::GR17 => "GR17"@,
            Instances::GR21 => "GR21"@,
            Instances::GR24 => "GR24"@,
            Instances::GR48 => "GR48"@,
            Instances::GR96 => "GR96"@,
            Instances::GR120 => "GR120"@,
            Instances::GR137 => "GR137"@,
            Instances::GR202 => "GR202"@,
            Instances::GR229 => "GR229"@,
            Instances::GR431 => "GR431"@,
            Instances::GR666 => "GR666"@,
            Instances::HK48 => "HK48"@,
            Instances::KROA100 => "KROA100"@,
            Instances::KROA150 => "KROA150"@,
            Instances::KROA200 => "KROA200"@,
            Instances::KROB100 => "KROB100"@,
            Instances::KROB150 => "KROB150"@,
            Instances::KROB200 => "KROB200"@,
            Instances::KROC100 => "KROC100"@,
            Instances::KROD100 => "KROD100"@,
            Instances::KROE100 => "KROE100"@,
            Instances::LIN105 => "LIN105"@,
            Instances::LIN318 => "LIN318"@,
            Instances::LINHP318 => "LINHP318"@,
            Instances::NRW1379 => "NRW1379"@,
            Instances::P654 => "P654"@,
            Instances::PA561 => "PA561"@,
            Instances::PCB442 => "PCB442"@,
            Instances::PCB1173 => "PCB1173"@,
            Instances::PCB3038 => "PCB3038"@,
            Instances::PLA7397 => "PLA7397"@,
            Instances::PLA33810 => "PLA33810"@,
            Instances::PLA85900 => "PLA85900"@,
            Instances::PR76 => "PR76"@,
            Instances::PR107 => "PR107"@,
            Instances::PR124 => "PR124"@,
            Instances::PR136 => "PR136"@,
            Instances::PR144 => "PR144"@,
            Instances::PR152 => "PR152"@,
            Instances::PR226 => "PR226"@,
            Instances::PR264 => "PR264"@,
            Instances::PR299 => "PR299"@,
            Instances::PR439 => "PR439"@,
            Instances::PR1002 => "PR1002"@,
            Instances::PR2392 => "PR2392"@,
            Instances::RAT99 => "RAT99"@,
            Instances::RAT195 => "RAT195"@,
            Instances::RAT575 => "RAT575"@,
            Instances::RAT783 => "RAT783"@,
            Instances::RD100 => "RD100"@,
            Instances::RD400 => "RD400"@,
            Instances::RL1304 => "RL1304"@,
            Instances::RL1323 => "RL1323"@,
            Instances::RL1889 => "RL1889"@,
            Instances::RL5915 => "RL5915"@,
            Instances::RL5934 => "RL5934"@,
            Instances::RL11849 => "RL11849"@,
            Instances::SI175 => "SI175"@,
            Instances::SI535 => "SI535"@,
            Instances::SI1032 => "SI1032"@,
            Instances::ST70 => "ST70"@,
            Instances::SWISS42 => "SWISS42"@,
            Instances::TS225 => "TS225"@,
            Instances::TSP225 => "TSP225"@,
            Instances::U159 => "U159"@,
            Instances::U574 => "U574"@,
            Instances::U724 => "U724"@,
            Instances::U1060 => "U1060"@,
            Instances::U1432 => "U1432"@,
            Instances::U1817 => "U1817"@,
            Instances::U2152 => "U2152"@,
            Instances::U2319 => "U2319"@,
            Instances::ULYSSES16 => "ULYSSES16"@,
            Instances::ULYSSES22 => "ULYSSES22"@,
            Instances::USA13509 => "USA13509"@,
            Instances::VM1084 => "VM1084"@,
            Instances::VM1748 => "VM1748"@,
        }
    }

    /// Returns the name of the instance, as the TSPLIB writes it.
    pub fn name(&self) -> (r: &'static str)
        ensures
            r@ == self.spec_name(),
    {
        match self {
            Instances::A280 => "A280",
            Instances::ALI535 => "ALI535",
            Instances::ATT48 => "ATT48",
            Instances::ATT532 => "ATT532",
            Instances::BAYG29 => "BAYG29",
            Instances::BAYS29 => "BAYS29",
            Instances::BERLIN52 => "BERLIN52",
            Instances::BIER127 => "BIER127",
            Instances::BRAZIL58 => "BRAZIL58",
            Instances::BRD14051 => "BRD14051",
            Instances::BRG180 => "BRG180",
            Instances::BURMA14 => "BURMA14",
            Instances::CH130 => "CH130",
            Instances::CH150 => "CH150",
            Instances::D198 => "D198",
            Instances::D493 => "D493",
            Instances::D657 => "D657",
            Instances::D1291 => "D1291",
            Instances::D1655 => "D1655",
            Instances::D2103 => "D2103",
            Instances::D15112 => "D15112",
            Instances::D18512 => "D18512",
            Instances::DANTZIG42 => "DANTZIG42",
            Instances::DSJ1000 => "DSJ1000",
            Instances::EIL51 => "EIL51",
            Instances::EIL76 => "EIL76",
            Instances::EIL101 => "EIL101",
            Instances::FL417 => "FL417",
            Instances::FL1400 => "FL1400",
            Instances::FL1577 => "FL1577",
            Instances::FL3795 => "FL3795",
            Instances::FNL4461 => "FNL4461",
            Instances::FRI26 => "FRI26",
            Instances::GIL262 => "GIL262",
            Instances::GR17 => "GR17",
            Instances::GR21 => "GR21",
            Instances::GR24 => "GR24",
            Instances::GR48 => "GR48",
            Instances::GR96 => "GR96",
            Instances::GR120 => "GR120",
            Instances::GR137 => "GR137",
            Instances::GR202 => "GR202",
            Instances::GR229 => "GR229",
            Instances::GR431 => "GR431",
            Instances::GR666 => "GR666",
            Instances::HK48 => "HK48",
            Instances::KROA100 => "KROA100",
            Instances::KROA150 => "KROA150",
            Instances::KROA200 => "KROA200",
            Instances::KROB100 => "KROB100",
            Instances::KROB150 => "KROB150",
            Instances::KROB200 => "KROB200",
            Instances::KROC100 => "KROC100",
            Instances::KROD100 => "KROD100",
            Instances::KROE100 => "KROE100",
            Instances::LIN105 => "LIN105",
            Instances::LIN318 => "LIN318",
            Instances::LINHP318 => "LINHP318",
            Instances::NRW1379 => "NRW1379",
            Instances::P654 => "P654",
            Instances::PA561 => "PA561",
            Instances::PCB442 => "PCB442",
            Instances::PCB1173 => "PCB1173",
            Instances::PCB3038 => "PCB3038",
            Instances::PLA7397 => "PLA7397",
            Instances::PLA33810 => "PLA33810",
            Instances::PLA85900 => "PLA85900",
            Instances::PR76 => "PR76",
            Instances::PR107 => "PR107",
            Instances::PR124 => "PR124",
            Instances::PR136 => "PR136",
            Instances::PR144 => "PR144",
            Instances::PR152 => "PR152",
            Instances::PR226 => "PR226",
            Instances::PR264 => "PR264",
            Instances::PR299 => "PR299",
            Instances::PR439 => "PR439",
            Instances::PR1002 => "PR1002",
            Instances::PR2392 => "PR2392",
            Instances::RAT99 => "RAT99",
            Instances::RAT195 => "RAT195",
            Instances::RAT575 => "RAT575",
            Instances::RAT783 => "RAT783",
            Instances::RD100 => "RD100",
            Instances::RD400 => "RD400",
            Instances::RL1304 => "RL1304",
            Instances::RL1323 => "RL1323",
            Instances::RL1889 => "RL1889",
            Instances::RL5915 => "RL5915",
            Instances::RL5934 => "RL5934",
            Instances::RL11849 => "RL11849",
            Instances::SI175 => "SI175",
            Instances::SI535 => "SI535",
            Instances::SI1032 => "SI1032",
            Instances::ST70 => "ST70",
            Instances::SWISS42 => "SWISS42",
            Instances::TS225 => "TS225",
            Instances::TSP225 => "TSP225",
            Instances::U159 => "U159",
            Instances::U574 => "U574",
            Instances::U724 => "U724",
            Instances::U1060 => "U1060",
            Instances::U1432 => "U1432",
            Instances::U1817 => "U1817",
            Instances::U2152 => "U2152",
            Instances::U2319 => "U2319",
            Instances::ULYSSES16 => "ULYSSES16",
            Instances::ULYSSES22 => "ULYSSES22",
            Instances::USA13509 => "USA13509",
            Instances::VM1084 => "VM1084",
            Instances::VM1748 => "VM1748",
        }
    }
}

} // verus!
