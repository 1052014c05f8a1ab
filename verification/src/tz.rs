//! The time zones offered for configuration, their names and their POSIX TZ rules.
use vstd::prelude::*;

use crate::text::str_eq;

verus! {

pub const TIMEZONE_LEN: usize = 64;

pub const TZ_EUROPE_LONDON: &'static str = "Europe/London";
pub const TZ_EUROPE_BERLIN: &'static str = "Europe/Berlin";
pub const TZ_EUROPE_PARIS: &'static str = "Europe/Paris";
pub const TZ_EUROPE_MADRID: &'static str = "Europe/Madrid";
pub const TZ_EUROPE_ROME: &'static str = "Europe/Rome";
pub const TZ_AMERICA_NEW_YORK: &'static str = "America/New_York";
pub const TZ_AMERICA_CHICAGO: &'static str = "America/Chicago";
pub const TZ_AMERICA_DENVER: &'static str = "America/Denver";
pub const TZ_AMERICA_LOS_ANGELES: &'static str = "America/Los_Angeles";
pub const TZ_AMERICA_TORONTO: &'static str = "America/Toronto";
pub const TZ_AMERICA_VANCOUVER: &'static str = "America/Vancouver";
pub const TZ_AUSTRALIA_SYDNEY: &'static str = "Australia/Sydney";
pub const TZ_AUSTRALIA_MELBOURNE: &'static str = "Australia/Melbourne";
pub const TZ_AUSTRALIA_BRISBANE: &'static str = "Australia/Brisbane";
pub const TZ_PACIFIC_AUCKLAND: &'static str = "Pacific/Auckland";
pub const TZ_ASIA_TOKYO: &'static str = "Asia/Tokyo";
pub const TZ_ASIA_SHANGHAI: &'static str = "Asia/Shanghai";
pub const TZ_ASIA_KOLKATA: &'static str = "Asia/Kolkata";
pub const TZ_ASIA_SINGAPORE: &'static str = "Asia/Singapore";
pub const TZ_ASIA_DUBAI: &'static str = "Asia/Dubai";
pub const TZ_AMERICA_SAO_PAULO: &'static str = "America/Sao_Paulo";
pub const TZ_UTC: &'static str = "UTC";
pub const TZ_UTC_ALT: &'static str = "Etc/UTC";

/// The time zones that a device can be set to.
#[derive(Debug, Clone, Copy, PartialEq, Eq, Structural)]
pub enum TimeZone {
    EuropeLondon,
    EuropeBerlin,
    EuropeParis,
    EuropeMadrid,
    EuropeRome,
    AmericaNewYork,
    AmericaChicago,
    AmericaDenver,
    AmericaLosAngeles,
    AmericaToronto,
    AmericaVancouver,
    AustraliaSydney,
    AustraliaMelbourne,
    AustraliaBrisbane,
    PacificAuckland,
    AsiaTokyo,
    AsiaShanghai,
    AsiaKolkata,
    AsiaSingapore,
    AsiaDubai,
    AmericaSaoPaulo,
    Utc,
}

/// The IANA name under which a zone is configured.
pub open spec fn tz_name(tz: TimeZone) -> Seq<char> {
    match tz {
        TimeZone::EuropeLondon => TZ_EUROPE_LONDON@,
        TimeZone::EuropeBerlin => TZ_EUROPE_BERLIN@,
        TimeZone::EuropeParis => TZ_EUROPE_PARIS@,
        TimeZone::EuropeMadrid => TZ_EUROPE_MADRID@,
        TimeZone::EuropeRome => TZ_EUROPE_ROME@,
        TimeZone::AmericaNewYork => TZ_AMERICA_NEW_YORK@,
        TimeZone::AmericaChicago => TZ_AMERICA_CHICAGO@,
        TimeZone::AmericaDenver => TZ_AMERICA_DENVER@,
        TimeZone::AmericaLosAngeles => TZ_AMERICA_LOS_ANGELES@,
        TimeZone::AmericaToronto => TZ_AMERICA_TORONTO@,
        TimeZone::AmericaVancouver => TZ_AMERICA_VANCOUVER@,
        TimeZone::AustraliaSydney => TZ_AUSTRALIA_SYDNEY@,
        TimeZone::AustraliaMelbourne => TZ_AUSTRALIA_MELBOURNE@,
        TimeZone::AustraliaBrisbane => TZ_AUSTRALIA_BRISBANE@,
        TimeZone::PacificAuckland => TZ_PACIFIC_AUCKLAND@,
        TimeZone::AsiaTokyo => TZ_ASIA_TOKYO@,
        TimeZone::AsiaShanghai => TZ_ASIA_SHANGHAI@,
        TimeZone::AsiaKolkata => TZ_ASIA_KOLKATA@,
        TimeZone::AsiaSingapore => TZ_ASIA_SINGAPORE@,
        TimeZone::AsiaDubai => TZ_ASIA_DUBAI@,
        TimeZone::AmericaSaoPaulo => TZ_AMERICA_SAO_PAULO@,
        TimeZone::Utc => TZ_UTC@,
    }
}

/// A string names a zone when it is the zone's name, or `Etc/UTC` for UTC.
pub open spec fn names_zone(s: Seq<char>, tz: TimeZone) -> bool {
    s == tz_name(tz) || (tz == TimeZone::Utc && s == TZ_UTC_ALT@)
}

/// The order in which the zones are offered.
pub open spec fn all_zones() -> Seq<TimeZone> {
    seq![
        TimeZone::EuropeLondon,
        TimeZone::EuropeBerlin,
        TimeZone::EuropeParis,
        TimeZone::EuropeMadrid,
        TimeZone::EuropeRome,
        TimeZone::AmericaNewYork,
        TimeZone::AmericaChicago,
        TimeZone::AmericaDenver,
        TimeZone::AmericaLosAngeles,
        TimeZone::AmericaToronto,
        TimeZone::AmericaVancouver,
        TimeZone::AustraliaSydney,
        TimeZone::AustraliaMelbourne,
        TimeZone::AustraliaBrisbane,
        TimeZone::PacificAuckland,
        TimeZone::AsiaTokyo,
        TimeZone::AsiaShanghai,
        TimeZone::AsiaKolkata,
        TimeZone::AsiaSingapore,
        TimeZone::AsiaDubai,
        TimeZone::AmericaSaoPaulo,
        TimeZone::Utc,
    ]
}

/// The POSIX TZ rule of each zone.
pub open spec fn posix_rule(tz: TimeZone) -> Seq<char> {
    match tz {
        TimeZone::EuropeLondon => "GMT0BST,M3.5.0/1,M10.5.0/2"@,
        TimeZone::EuropeBerlin | TimeZone::EuropeParis | TimeZone::EuropeMadrid
        | TimeZone::EuropeRome => "CET-1CEST,M3.5.0/2,M10.5.0/3"@,
        TimeZone::AmericaNewYork | TimeZone::AmericaToronto => "EST5EDT,M3.2.0/2,M11.1.0/2"@,
        TimeZone::AmericaChicago => "CST6CDT,M3.2.0/2,M11.1.0/2"@,
        TimeZone::AmericaDenver => "MST7MDT,M3.2.0/2,M11.1.0/2"@,
        TimeZone::AmericaLosAngeles | TimeZone::AmericaVancouver => "PST8PDT,M3.2.0/2,M11.1.0/2"@,
        TimeZone::AustraliaSydney | TimeZone::AustraliaMelbourne => "AEST-10AEDT,M10.1.0/2,M4.1.0/3"@,
        TimeZone::AustraliaBrisbane => "AEST-10"@,
        TimeZone::PacificAuckland => "NZST-12NZDT,M9.5.0/2,M4.1.0/3"@,
        TimeZone::AsiaTokyo => "JST-9"@,
        TimeZone::AsiaShanghai => "CST-8"@,
        TimeZone::AsiaKolkata => "IST-5:30"@,
        TimeZone::AsiaSingapore => "SGT-8"@,
        TimeZone::AsiaDubai => "GST-4"@,
        TimeZone::AmericaSaoPaulo => "BRT3"@,
        TimeZone::Utc => "UTC0"@,
    }
}

/// Each zone's offset from UTC in standard (winter) time, in minutes east of
/// Greenwich, as the IANA time zone database gives it.
pub open spec fn standard_utc_offset_minutes(tz: TimeZone) -> int {
    match tz {
        TimeZone::EuropeLondon => 0,
        TimeZone::EuropeBerlin => 60,
        TimeZone::EuropeParis => 60,
        TimeZone::EuropeMadrid => 60,
        TimeZone::EuropeRome => 60,
        TimeZone::AmericaNewYork => -300,
        TimeZone::AmericaChicago => -360,
        TimeZone::AmericaDenver => -420,
        TimeZone::AmericaLosAngeles => -480,
        TimeZone::AmericaToronto => -300,
        TimeZone::AmericaVancouver => -480,
        TimeZone::AustraliaSydney => 600,
        TimeZone::AustraliaMelbourne => 600,
        TimeZone::AustraliaBrisbane => 600,
        TimeZone::PacificAuckland => 720,
        TimeZone::AsiaTokyo => 540,
        TimeZone::AsiaShanghai => 480,
        TimeZone::AsiaKolkata => 330,
        TimeZone::AsiaSingapore => 480,
        TimeZone::AsiaDubai => 240,
        TimeZone::AmericaSaoPaulo => -180,
        TimeZone::Utc => 0,
    }
}

/// An ASCII letter.
pub open spec fn is_ascii_letter(c: char) -> bool {
    ('A' <= c <= 'Z') || ('a' <= c <= 'z')
}

/// An ASCII decimal digit.
pub open spec fn is_ascii_digit(c: char) -> bool {
    '0' <= c <= '9'
}

/// The position of the first character at or after `i` that is not a letter.
pub open spec fn letters_end(s: Seq<char>, i: int) -> int
    decreases s.len() - i,
{
    if 0 <= i < s.len() && is_ascii_letter(s[i]) {
        letters_end(s, i + 1)
    } else {
        i
    }
}

/// The position of the first character at or after `i` that is not a digit.
pub open spec fn digits_end(s: Seq<char>, i: int) -> int
    decreases s.len() - i,
{
    if 0 <= i < s.len() && is_ascii_digit(s[i]) {
        digits_end(s, i + 1)
    } else {
        i
    }
}

/// The number that the decimal digits from `i` up to `j` write.
pub open spec fn decimal_value(s: Seq<char>, i: int, j: int) -> int
    decreases j - i,
{
    if j <= i {
        0
    } else {
        decimal_value(s, i, j - 1) * 10 + (s[j - 1] as int - '0' as int)
    }
}

/// The standard-time offset that a POSIX TZ rule (`std offset[dst[offset][,rule]]`)
/// gives, in minutes: a name of at least three letters, then an optional sign and
/// `hh[:mm]`. POSIX counts the offset as what is added to local time to reach UTC,
/// so it is positive west of Greenwich.
pub open spec fn posix_std_offset(s: Seq<char>) -> Option<int> {
    let name_end = letters_end(s, 0);
    let signed = name_end < s.len() && (s[name_end] == '-' || s[name_end] == '+');
    let start = if signed { name_end + 1 } else { name_end };
    let hours_end = digits_end(s, start);
    if name_end < 3 || hours_end == start {
        None
    } else {
        let minutes = if hours_end < s.len() && s[hours_end] == ':' {
            decimal_value(s, hours_end + 1, digits_end(s, hours_end + 1))
        } else {
            0
        };
        let total = decimal_value(s, start, hours_end) * 60 + minutes;
        Some(if signed && s[name_end] == '-' { -total } else { total })
    }
}

/// Each zone's POSIX rule carries the zone's real offset from UTC: the rule's
/// standard offset, in POSIX's sign (west positive), is the zone's standard offset
/// east of UTC negated.
pub proof fn lemma_posix_rule_carries_zone_offset(tz: TimeZone)
    ensures
        posix_std_offset(posix_rule(tz)) == Some(-standard_utc_offset_minutes(tz)),
{
    reveal_with_fuel(letters_end, 6);
    reveal_with_fuel(digits_end, 4);
    reveal_with_fuel(decimal_value, 4);
    match tz {
        TimeZone::EuropeLondon => {
            reveal_strlit("GMT0BST,M3.5.0/1,M10.5.0/2");
        },
        TimeZone::EuropeBerlin => {
            reveal_strlit("CET-1CEST,M3.5.0/2,M10.5.0/3");
        },
        TimeZone::EuropeParis => {
            reveal_strlit("CET-1CEST,M3.5.0/2,M10.5.0/3");
        },
        TimeZone::EuropeMadrid => {
            reveal_strlit("CET-1CEST,M3.5.0/2,M10.5.0/3");
        },
        TimeZone::EuropeRome => {
            reveal_strlit("CET-1CEST,M3.5.0/2,M10.5.0/3");
        },
        TimeZone::AmericaNewYork => {
            reveal_strlit("EST5EDT,M3.2.0/2,M11.1.0/2");
        },
        TimeZone::AmericaChicago => {
            reveal_strlit("CST6CDT,M3.2.0/2,M11.1.0/2");
        },
        TimeZone::AmericaDenver => {
            reveal_strlit("MST7MDT,M3.2.0/2,M11.1.0/2");
        },
        TimeZone::AmericaLosAngeles => {
            reveal_strlit("PST8PDT,M3.2.0/2,M11.1.0/2");
        },
        TimeZone::AmericaToronto => {
            reveal_strlit("EST5EDT,M3.2.0/2,M11.1.0/2");
        },
        TimeZone::AmericaVancouver => {
            reveal_strlit("PST8PDT,M3.2.0/2,M11.1.0/2");
        },
        TimeZone::AustraliaSydney => {
            reveal_strlit("AEST-10AEDT,M10.1.0/2,M4.1.0/3");
        },
        TimeZone::AustraliaMelbourne => {
            reveal_strlit("AEST-10AEDT,M10.1.0/2,M4.1.0/3");
        },
        TimeZone::AustraliaBrisbane => {
            reveal_strlit("AEST-10");
        },
        TimeZone::PacificAuckland => {
            reveal_strlit("NZST-12NZDT,M9.5.0/2,M4.1.0/3");
        },
        TimeZone::AsiaTokyo => {
            reveal_strlit("JST-9");
        },
        TimeZone::AsiaShanghai => {
            reveal_strlit("CST-8");
        },
        TimeZone::AsiaKolkata => {
            reveal_strlit("IST-5:30");
        },
        TimeZone::AsiaSingapore => {
            reveal_strlit("SGT-8");
        },
        TimeZone::AsiaDubai => {
            reveal_strlit("GST-4");
        },
        TimeZone::AmericaSaoPaulo => {
            reveal_strlit("BRT3");
        },
        TimeZone::Utc => {
            reveal_strlit("UTC0");
        },
    }
}

/// No two zones share a name, and `Etc/UTC` is the name of no zone.
pub proof fn lemma_zone_names_distinct(a: TimeZone, b: TimeZone)
    ensures
        tz_name(a) == tz_name(b) ==> a == b,
        TZ_UTC_ALT@ != tz_name(a),
{
    reveal_strlit("Europe/London");
    reveal_strlit("Europe/Berlin");
    reveal_strlit("Europe/Paris");
    reveal_strlit("Europe/Madrid");
    reveal_strlit("Europe/Rome");
    reveal_strlit("America/New_York");
    reveal_strlit("America/Chicago");
    reveal_strlit("America/Denver");
    reveal_strlit("America/Los_Angeles");
    reveal_strlit("America/Toronto");
    reveal_strlit("America/Vancouver");
    reveal_strlit("Australia/Sydney");
    reveal_strlit("Australia/Melbourne");
    reveal_strlit("Australia/Brisbane");
    reveal_strlit("Pacific/Auckland");
    reveal_strlit("Asia/Tokyo");
    reveal_strlit("Asia/Shanghai");
    reveal_strlit("Asia/Kolkata");
    reveal_strlit("Asia/Singapore");
    reveal_strlit("Asia/Dubai");
    reveal_strlit("America/Sao_Paulo");
    reveal_strlit("UTC");
    reveal_strlit("Etc/UTC");
    assert(TZ_UTC_ALT@.len() == 7);
    assert(TZ_UTC@.len() == 3);
    if tz_name(a) == tz_name(b) {
        // The length and the ninth character tell all the names apart.
        assert(tz_name(a).len() == tz_name(b).len());
        if tz_name(a).len() > 8 {
            assert(tz_name(a)[8] == tz_name(b)[8]);
        }
    }
}

impl TimeZone {
    /// All the zones, in the order in which they are offered.
    pub fn iter() -> (v: Vec<TimeZone>)
        ensures
            v@ == all_zones(),
    {
        let v = vec![
            TimeZone::EuropeLondon,
            TimeZone::EuropeBerlin,
            TimeZone::EuropeParis,
            TimeZone::EuropeMadrid,
            TimeZone::EuropeRome,
            TimeZone::AmericaNewYork,
            TimeZone::AmericaChicago,
            TimeZone::AmericaDenver,
            TimeZone::AmericaLosAngeles,
            TimeZone::AmericaToronto,
            TimeZone::AmericaVancouver,
            TimeZone::AustraliaSydney,
            TimeZone::AustraliaMelbourne,
            TimeZone::AustraliaBrisbane,
            TimeZone::PacificAuckland,
            TimeZone::AsiaTokyo,
            TimeZone::AsiaShanghai,
            TimeZone::AsiaKolkata,
            TimeZone::AsiaSingapore,
            TimeZone::AsiaDubai,
            TimeZone::AmericaSaoPaulo,
            TimeZone::Utc,
        ];
        assert(v@ =~= all_zones());
        v
    }

    /// The POSIX TZ rule of the zone, whose standard offset is the zone's offset from
    /// UTC in POSIX's sign.
    pub fn to_posix_tz(&self) -> (r: &'static str)
        ensures
            r@ == posix_rule(*self),
            posix_std_offset(r@) == Some(-standard_utc_offset_minutes(*self)),
    {
        proof {
            lemma_posix_rule_carries_zone_offset(*self);
        }
        match self {
            TimeZone::EuropeLondon => "GMT0BST,M3.5.0/1,M10.5.0/2",
            TimeZone::EuropeBerlin | TimeZone::EuropeParis | TimeZone::EuropeMadrid
            | TimeZone::EuropeRome => "CET-1CEST,M3.5.0/2,M10.5.0/3",
            TimeZone::AmericaNewYork | TimeZone::AmericaToronto => "EST5EDT,M3.2.0/2,M11.1.0/2",
            TimeZone::AmericaChicago => "CST6CDT,M3.2.0/2,M11.1.0/2",
            TimeZone::AmericaDenver => "MST7MDT,M3.2.0/2,M11.1.0/2",
            TimeZone::AmericaLosAngeles | TimeZone::AmericaVancouver => "PST8PDT,M3.2.0/2,M11.1.0/2",
            TimeZone::AustraliaSydney | TimeZone::AustraliaMelbourne => "AEST-10AEDT,M10.1.0/2,M4.1.0/3",
            TimeZone::AustraliaBrisbane => "AEST-10",
            TimeZone::PacificAuckland => "NZST-12NZDT,M9.5.0/2,M4.1.0/3",
            TimeZone::AsiaTokyo => "JST-9",
            TimeZone::AsiaShanghai => "CST-8",
            TimeZone::AsiaKolkata => "IST-5:30",
            TimeZone::AsiaSingapore => "SGT-8",
            TimeZone::AsiaDubai => "GST-4",
            TimeZone::AmericaSaoPaulo => "BRT3",
            TimeZone::Utc => "UTC0",
        }
    }

    /// The zone's IANA name.
    pub fn to_str(&self) -> (r: &'static str)
        ensures
            r@ == tz_name(*self),
    {
        match self {
            TimeZone::EuropeLondon => TZ_EUROPE_LONDON,
            TimeZone::EuropeBerlin => TZ_EUROPE_BERLIN,
            TimeZone::EuropeParis => TZ_EUROPE_PARIS,
            TimeZone::EuropeMadrid => TZ_EUROPE_MADRID,
            TimeZone::EuropeRome => TZ_EUROPE_ROME,
            TimeZone::AmericaNewYork => TZ_AMERICA_NEW_YORK,
            TimeZone::AmericaChicago => TZ_AMERICA_CHICAGO,
            TimeZone::AmericaDenver => TZ_AMERICA_DENVER,
            TimeZone::AmericaLosAngeles => TZ_AMERICA_LOS_ANGELES,
            TimeZone::AmericaToronto => TZ_AMERICA_TORONTO,
            TimeZone::AmericaVancouver => TZ_AMERICA_VANCOUVER,
            TimeZone::AustraliaSydney => TZ_AUSTRALIA_SYDNEY,
            TimeZone::AustraliaMelbourne => TZ_AUSTRALIA_MELBOURNE,
            TimeZone::AustraliaBrisbane => TZ_AUSTRALIA_BRISBANE,
            TimeZone::PacificAuckland => TZ_PACIFIC_AUCKLAND,
            TimeZone::AsiaTokyo => TZ_ASIA_TOKYO,
            TimeZone::AsiaShanghai => TZ_ASIA_SHANGHAI,
            TimeZone::AsiaKolkata => TZ_ASIA_KOLKATA,
            TimeZone::AsiaSingapore => TZ_ASIA_SINGAPORE,
            TimeZone::AsiaDubai => TZ_ASIA_DUBAI,
            TimeZone::AmericaSaoPaulo => TZ_AMERICA_SAO_PAULO,
            TimeZone::Utc => TZ_UTC,
        }
    }

    /// The zone that a name denotes, if any.
    pub fn from_str(s: &str) -> (r: Option<TimeZone>)
        ensures
            match r {
                Some(tz) => names_zone(s@, tz),
                None => forall|tz: TimeZone| !names_zone(s@, tz),
            },
    {
        let zones = Self::iter();
        let mut i: usize = 0;
        while i < zones.len()
            invariant
                zones@ == all_zones(),
                i <= zones@.len(),
                forall|j: int| 0 <= j < i ==> s@ != tz_name(#[trigger] zones@[j]),
            decreases zones@.len() - i,
        {
            let tz = zones[i];
            if str_eq(s, tz.to_str()) {
                return Some(tz);
            }
            i = i + 1;
        }
        if str_eq(s, TZ_UTC_ALT) {
            return Some(TimeZone::Utc);
        }
        assert forall|tz: TimeZone| !names_zone(s@, tz) by {
            lemma_every_zone_listed(tz);
            let k = choose|k: int| 0 <= k < all_zones().len() && all_zones()[k] == tz;
            assert(s@ != tz_name(zones@[k]));
        }
        None
    }
}

/// Every zone appears in the list of offered zones.
pub proof fn lemma_every_zone_listed(tz: TimeZone)
    ensures
        exists|k: int| 0 <= k < all_zones().len() && all_zones()[k] == tz,
{
    let z = all_zones();
    match tz {
        TimeZone::EuropeLondon => assert(z[0] == tz),
        TimeZone::EuropeBerlin => assert(z[1] == tz),
        TimeZone::EuropeParis => assert(z[2] == tz),
        TimeZone::EuropeMadrid => assert(z[3] == tz),
        TimeZone::EuropeRome => assert(z[4] == tz),
        TimeZone::AmericaNewYork => assert(z[5] == tz),
        TimeZone::AmericaChicago => assert(z[6] == tz),
        TimeZone::AmericaDenver => assert(z[7] == tz),
        TimeZone::AmericaLosAngeles => assert(z[8] == tz),
        TimeZone::AmericaToronto => assert(z[9] == tz),
        TimeZone::AmericaVancouver => assert(z[10] == tz),
        TimeZone::AustraliaSydney => assert(z[11] == tz),
        TimeZone::AustraliaMelbourne => assert(z[12] == tz),
        TimeZone::AustraliaBrisbane => assert(z[13] == tz),
        TimeZone::PacificAuckland => assert(z[14] == tz),
        TimeZone::AsiaTokyo => assert(z[15] == tz),
        TimeZone::AsiaShanghai => assert(z[16] == tz),
        TimeZone::AsiaKolkata => assert(z[17] == tz),
        TimeZone::AsiaSingapore => assert(z[18] == tz),
        TimeZone::AsiaDubai => assert(z[19] == tz),
        TimeZone::AmericaSaoPaulo => assert(z[20] == tz),
        TimeZone::Utc => assert(z[21] == tz),
    }
}

/// A name denotes at most one zone.
pub proof fn lemma_name_denotes_one_zone(s: Seq<char>, a: TimeZone, b: TimeZone)
    requires
        names_zone(s, a),
        names_zone(s, b),
    ensures
        a == b,
{
    lemma_zone_names_distinct(a, b);
    lemma_zone_names_distinct(b, a);
}

/// Reading back the name of a zone gives the zone.
pub proof fn lemma_name_round_trip(tz: TimeZone, r: Option<TimeZone>)
    requires
        match r {
            Some(z) => names_zone(tz_name(tz), z),
            None => forall|z: TimeZone| !names_zone(tz_name(tz), z),
        },
    ensures
        r == Some(tz),
{
    assert(names_zone(tz_name(tz), tz));
    if let Some(z) = r {
        lemma_name_denotes_one_zone(tz_name(tz), z, tz);
    }
}

} // verus!
