//! Context builder: the ordered, human-readable geographic and temporal
//! lines that steer the vision model toward authenticity judgments.

use vstd::prelude::*;
use vstd::string::*;

use crate::numfmt::{dec_digits, dec_digits_signed, digit_char, i64_to_string, u64_to_string};
use crate::solar::SolarPosition;

verus! {

/// GPS coordinates as they were rendered for display.
pub struct GpsDisplay {
    pub latitude_text: String,
    pub longitude_text: String,
}

/// Camera orientation: bearing rounded to whole degrees, plus the reported
/// cardinal direction.
pub struct BearingDisplay {
    pub bearing_degrees: i64,
    pub cardinal: Option<String>,
}

/// A UTC civil timestamp, already broken into its fields.
pub struct UtcTimestamp {
    pub year: u64,
    pub month: u64,
    pub day: u64,
    pub hour: u64,
    pub minute: u64,
    pub second: u64,
}

impl UtcTimestamp {
    /// Field ranges of a civil timestamp as rendered here.
    pub open spec fn wf(self) -> bool {
        self.year <= 9999 && 1 <= self.month <= 12 && 1 <= self.day <= 31 && self.hour < 24
            && self.minute < 60 && self.second < 60
    }
}

/// Everything the context block may mention.  Fields are `None` when the
/// capture lacks the datum; `solar` is present exactly when GPS coordinates
/// and a timestamp both were, and holds the position computed for them.
pub struct ContextInput {
    pub gps: Option<GpsDisplay>,
    pub country: Option<String>,
    pub city: Option<String>,
    pub place_name: Option<String>,
    pub timestamp: Option<UtcTimestamp>,
    pub solar: Option<SolarPosition>,
    pub orientation: Option<BearingDisplay>,
}

/// `n` in decimal, left-padded with zeros to at least `width` digits.
pub open spec fn zero_padded(n: nat, width: int) -> Seq<char> {
    let digits = dec_digits(n);
    if digits.len() >= width {
        digits
    } else {
        Seq::new((width - digits.len()) as nat, |i: int| '0') + digits
    }
}

/// Renders `n` with at least two digits.
fn pad2(n: u64) -> (r: String)
    requires
        n < 100,
    ensures
        r@ == zero_padded(n as nat, 2),
{
    proof {
        reveal_strlit("0");
    }
    if n < 10 {
        let mut s = String::from_str("0");
        s.append(u64_to_string(n).as_str());
        assert(s@ =~= zero_padded(n as nat, 2));
        s
    } else {
        let s = u64_to_string(n);
        assert(dec_digits(n as nat).len() >= 2) by {
            assert(dec_digits(n as nat) == dec_digits(n as nat / 10).push(
                digit_char((n % 10) as int),
            ));
        }
        s
    }
}

/// Renders `n` with at least four digits.
fn pad4(n: u64) -> (r: String)
    requires
        n <= 9999,
    ensures
        r@ == zero_padded(n as nat, 4),
{
    proof {
        reveal_strlit("0");
        reveal_strlit("00");
        reveal_strlit("000");
    }
    if n < 10 {
        let mut s = String::from_str("000");
        s.append(u64_to_string(n).as_str());
        assert(s@ =~= zero_padded(n as nat, 4));
        s
    } else if n < 100 {
        let mut s = String::from_str("00");
        s.append(u64_to_string(n).as_str());
        assert(dec_digits(n as nat).len() == 2) by {
            assert(dec_digits(n as nat) == dec_digits(n as nat / 10).push(
                digit_char((n % 10) as int),
            ));
        }
        assert(s@ =~= zero_padded(n as nat, 4));
        s
    } else if n < 1000 {
        let mut s = String::from_str("0");
        s.append(u64_to_string(n).as_str());
        assert(dec_digits(n as nat).len() == 3) by {
            assert(dec_digits(n as nat) == dec_digits(n as nat / 10).push(
                digit_char((n % 10) as int),
            ));
            assert(dec_digits(n as nat / 10) == dec_digits(n as nat / 10 / 10).push(
                digit_char((n as nat / 10 % 10) as int),
            ));
        }
        assert(s@ =~= zero_padded(n as nat, 4));
        s
    } else {
        let s = u64_to_string(n);
        assert(dec_digits(n as nat).len() >= 4) by {
            assert(dec_digits(n as nat) == dec_digits(n as nat / 10).push(
                digit_char((n % 10) as int),
            ));
            assert(dec_digits(n as nat / 10) == dec_digits(n as nat / 10 / 10).push(
                digit_char((n as nat / 10 % 10) as int),
            ));
            assert(dec_digits(n as nat / 10 / 10) == dec_digits(n as nat / 10 / 10 / 10).push(
                digit_char((n as nat / 10 / 10 % 10) as int),
            ));
        }
        assert(s@ =~= zero_padded(n as nat, 4));
        s
    }
}

/// `YYYY-MM-DD HH:MM:SS` rendering of a timestamp.
pub open spec fn timestamp_text(t: UtcTimestamp) -> Seq<char> {
    zero_padded(t.year as nat, 4) + "-"@ + zero_padded(t.month as nat, 2) + "-"@ + zero_padded(
        t.day as nat,
        2,
    ) + " "@ + zero_padded(t.hour as nat, 2) + ":"@ + zero_padded(t.minute as nat, 2) + ":"@
        + zero_padded(t.second as nat, 2)
}

/// Renders a timestamp as `YYYY-MM-DD HH:MM:SS`.
pub fn format_timestamp(t: &UtcTimestamp) -> (r: String)
    requires
        t.wf(),
    ensures
        r@ == timestamp_text(*t),
{
    proof {
        reveal_strlit("-");
        reveal_strlit(" ");
        reveal_strlit(":");
    }
    let mut s = pad4(t.year);
    s.append("-");
    s.append(pad2(t.month).as_str());
    s.append("-");
    s.append(pad2(t.day).as_str());
    s.append(" ");
    s.append(pad2(t.hour).as_str());
    s.append(":");
    s.append(pad2(t.minute).as_str());
    s.append(":");
    s.append(pad2(t.second).as_str());
    s
}

/// Signed value in tenths rendered with one decimal digit.
pub open spec fn tenths_text(t: int) -> Seq<char> {
    let sign: Seq<char> = if t < 0 {
        seq!['-']
    } else {
        Seq::empty()
    };
    let m = if t < 0 {
        -t
    } else {
        t
    };
    sign + dec_digits((m / 10) as nat) + seq!['.'] + seq![digit_char(m % 10)]
}

/// Renders a value held in tenths with one decimal digit (`-5` → `-0.5`).
fn format_tenths(t: i64) -> (r: String)
    requires
        -1000 <= t <= 1000,
    ensures
        r@ == tenths_text(t as int),
{
    proof {
        reveal_strlit("-");
        reveal_strlit(".");
    }
    let m: u64 = if t < 0 {
        (-t) as u64
    } else {
        t as u64
    };
    let mut s = if t < 0 {
        String::from_str("-")
    } else {
        String::new()
    };
    s.append(u64_to_string(m / 10).as_str());
    s.append(".");
    let frac = u64_to_string(m % 10);
    assert(frac@ =~= seq![digit_char((m % 10) as int)]);
    s.append(frac.as_str());
    assert(s@ =~= tenths_text(t as int));
    s
}

/// The context lines, in the order they are emitted.
pub open spec fn context_lines_spec(c: ContextInput) -> Seq<Seq<char>> {
    let gps_lines: Seq<Seq<char>> = match c.gps {
        Some(g) => seq![
            "📍 Coordenadas GPS: "@ + g.latitude_text@ + ", "@ + g.longitude_text@,
        ],
        None => Seq::empty(),
    };
    let country_lines: Seq<Seq<char>> = match c.country {
        Some(n) => seq!["🌍 País: "@ + n@],
        None => Seq::empty(),
    };
    let city_lines: Seq<Seq<char>> = match c.city {
        Some(n) => seq!["🏙️ Ciudad: "@ + n@],
        None => Seq::empty(),
    };
    let place_lines: Seq<Seq<char>> = match c.place_name {
        Some(n) => seq!["📌 Lugar: "@ + n@],
        None => Seq::empty(),
    };
    let solar_lines: Seq<Seq<char>> = if c.timestamp is Some && c.solar is Some {
        let t = c.timestamp->0;
        let p = c.solar->0;
        seq![
            "🕐 Hora captura (UTC): "@ + timestamp_text(t),
            "☀️ Posición solar: Azimuth "@ + dec_digits_signed((p.azimuth_millideg + 500) / 1000)
                + "°, Elevación "@ + tenths_text(elevation_tenths(p)) + "° ("@ + (
            if p.spec_is_daylight() {
                "DÍA"@
            } else {
                "NOCHE"@
            }) + ")"@,
            "🌅 Sol hacia el: "@ + direction_text(p),
        ]
    } else {
        Seq::empty()
    };
    let bearing_lines: Seq<Seq<char>> = match c.orientation {
        Some(b) => seq![
            "🧭 Dirección cámara: "@ + dec_digits_signed(b.bearing_degrees as int) + "° ("@ + (
            match b.cardinal {
                Some(card) => card@,
                None => "N/A"@,
            }) + ")"@,
        ],
        None => Seq::empty(),
    };
    gps_lines + country_lines + city_lines + place_lines + solar_lines + bearing_lines
}

/// Elevation in tenths of a degree, rounded away from zero on halves.
pub open spec fn elevation_tenths(p: SolarPosition) -> int {
    if p.elevation_millideg >= 0 {
        (p.elevation_millideg + 50) / 100
    } else {
        -((-p.elevation_millideg + 50) / 100)
    }
}

/// The compass bucket label of the sun's azimuth.
pub open spec fn direction_text(p: SolarPosition) -> Seq<char> {
    if p.azimuth_millideg < 45000 || p.azimuth_millideg >= 315000 {
        "Norte"@
    } else if p.azimuth_millideg < 135000 {
        "Este"@
    } else if p.azimuth_millideg < 225000 {
        "Sur"@
    } else {
        "Oeste"@
    }
}

/// Assembles the ordered, human-readable context lines for one capture.
#[verifier::rlimit(100)]
pub fn build_context_lines(c: &ContextInput) -> (r: Vec<String>)
    requires
        (c.timestamp matches Some(t) ==> t.wf()),
        (c.solar matches Some(p) ==> p.wf()),
    ensures
        r.deep_view() == context_lines_spec(*c),
{
    let mut lines: Vec<String> = Vec::new();
    if let Some(g) = &c.gps {
        let mut line = String::from_str("📍 Coordenadas GPS: ");
        line.append(g.latitude_text.as_str());
        line.append(", ");
        line.append(g.longitude_text.as_str());
        lines.push(line);
    }
    if let Some(n) = &c.country {
        let mut line = String::from_str("🌍 País: ");
        line.append(n.as_str());
        lines.push(line);
    }
    if let Some(n) = &c.city {
        let mut line = String::from_str("🏙️ Ciudad: ");
        line.append(n.as_str());
        lines.push(line);
    }
    if let Some(n) = &c.place_name {
        let mut line = String::from_str("📌 Lugar: ");
        line.append(n.as_str());
        lines.push(line);
    }
    if c.timestamp.is_some() && c.solar.is_some() {
        let t = c.timestamp.as_ref().unwrap();
        let p = c.solar.as_ref().unwrap();
        let mut time_line = String::from_str("🕐 Hora captura (UTC): ");
        time_line.append(format_timestamp(t).as_str());
        lines.push(time_line);
        let mut sun_line = String::from_str("☀️ Posición solar: Azimuth ");
        sun_line.append(i64_to_string(p.azimuth_degrees_rounded()).as_str());
        sun_line.append("°, Elevación ");
        sun_line.append(format_tenths(p.elevation_tenths_rounded()).as_str());
        sun_line.append("° (");
        if p.is_daylight() {
            sun_line.append("DÍA");
        } else {
            sun_line.append("NOCHE");
        }
        sun_line.append(")");
        lines.push(sun_line);
        let mut dir_line = String::from_str("🌅 Sol hacia el: ");
        dir_line.append(p.sun_direction());
        lines.push(dir_line);
    }
    if let Some(b) = &c.orientation {
        let mut line = String::from_str("🧭 Dirección cámara: ");
        line.append(i64_to_string(b.bearing_degrees).as_str());
        line.append("° (");
        match &b.cardinal {
            Some(card) => line.append(card.as_str()),
            None => line.append("N/A"),
        }
        line.append(")");
        lines.push(line);
    }
    assert(lines.deep_view() =~= context_lines_spec(*c));
    lines
}

/// Lines joined with `\n`.
pub open spec fn joined_lines(lines: Seq<Seq<char>>) -> Seq<char>
    decreases lines.len(),
{
    if lines.len() == 0 {
        Seq::empty()
    } else if lines.len() == 1 {
        lines[0]
    } else {
        joined_lines(lines.drop_last()) + "\n"@ + lines.last()
    }
}

/// Joins the context lines with newlines.
pub fn join_lines(lines: &Vec<String>) -> (r: String)
    ensures
        r@ == joined_lines(lines.deep_view()),
{
    proof {
        reveal_strlit("\n");
    }
    let mut out = String::new();
    let mut i: usize = 0;
    while i < lines.len()
        invariant
            i <= lines.len(),
            out@ == joined_lines(lines.deep_view().take(i as int)),
        decreases lines.len() - i,
    {
        if i > 0 {
            out.append("\n");
        }
        out.append(lines[i].as_str());
        proof {
            assert(lines.deep_view().take(i + 1).drop_last() =~= lines.deep_view().take(i as int));
            assert(lines.deep_view().take(i + 1).last() == lines.deep_view()[i as int]);
            if i == 0 {
                assert(out@ =~= joined_lines(lines.deep_view().take(i + 1)));
            }
        }
        i = i + 1;
    }
    proof {
        assert(lines.deep_view().take(lines.len() as int) =~= lines.deep_view());
    }
    out
}

} // verus!
