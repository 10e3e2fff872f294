//! GPRMC sentences: field rendering, the checksum and the record for a fix.
use vstd::prelude::*;
use crate::model::{GeoPoint, Fix, UNITS_PER_DEGREE};
use crate::text::{
    digit, padded, hex2, push_padded, push_hex2, pow10, lemma_padded_are_digits, lemma_padded_len,
};

verus! {

/// A calendar date and time of day (UTC), as read off the simulated clock.
#[derive(Clone, Copy, Debug, PartialEq, Eq, Structural)]
pub struct CivilTime {
    pub year: u32,
    pub month: u32,
    pub day: u32,
    pub hour: u32,
    pub minute: u32,
    pub second: u32,
}

/// Thousandths of a knot per tenth of a knot.
pub const SPEED_UNITS_PER_TENTH: u64 = 100;

/// Millionths of a degree per tenth of a degree.
pub const HEADING_UNITS_PER_TENTH: u64 = 100_000;

pub open spec fn abs(x: int) -> nat {
    if x < 0 { (-x) as nat } else { x as nat }
}

/// Minutes with five decimals, `MM.MMMMM`, from hundred-thousandths of a minute.
pub open spec fn minutes_field(m: nat) -> Seq<u8> {
    padded(m / 100_000, 2) + seq![46u8] + padded(m % 100_000, 5)
}

/// Latitude magnitude as `DDMM.MMMMM`.
pub open spec fn lat_field(lat: int) -> Seq<u8> {
    padded(abs(lat) / 6_000_000, 2) + minutes_field(abs(lat) % 6_000_000)
}

/// Longitude magnitude as `DDDMM.MMMMM`.
pub open spec fn lon_field(lon: int) -> Seq<u8> {
    padded(abs(lon) / 6_000_000, 3) + minutes_field(abs(lon) % 6_000_000)
}

/// `N` or `S` by the sign of the latitude.
pub open spec fn ns_letter(lat: int) -> u8 {
    if lat < 0 { 83u8 } else { 78u8 }
}

/// `E` or `W` by the sign of the longitude.
pub open spec fn ew_letter(lon: int) -> u8 {
    if lon < 0 { 87u8 } else { 69u8 }
}

/// `x / unit` rounded to the nearest integer, halves upward.
pub open spec fn rounded(x: nat, unit: nat) -> nat
    recommends
        unit > 0,
{
    x / unit + if x % unit >= unit / 2 { 1nat } else { 0nat }
}

/// A quantity as `DDD.D`, from `unit` fine units per tenth.
pub open spec fn tenths_field(x: nat, unit: nat) -> Seq<u8> {
    let t = rounded(x, unit);
    padded(t / 10, 3) + seq![46u8, digit(t % 10)]
}

/// `hhmmss`.
pub open spec fn time_field(t: CivilTime) -> Seq<u8> {
    padded(t.hour as nat, 2) + padded(t.minute as nat, 2) + padded(t.second as nat, 2)
}

/// `ddmmyy`, with the year's last two digits.
pub open spec fn date_field(t: CivilTime) -> Seq<u8> {
    padded(t.day as nat, 2) + padded(t.month as nat, 2) + padded((t.year % 100) as nat, 2)
}

/// Position fields: `lat,N,lon,E,` (each followed by a comma).
pub open spec fn position_fields(loc: GeoPoint) -> Seq<u8> {
    lat_field(loc.lat as int) + seq![44u8, ns_letter(loc.lat as int), 44u8]
        + lon_field(loc.lon as int) + seq![44u8, ew_letter(loc.lon as int), 44u8]
}

/// Motion fields: `speed,track,` in knots and degrees.
pub open spec fn motion_fields(speed: u64, heading: u64) -> Seq<u8> {
    tenths_field(speed as nat, 100) + seq![44u8] + tenths_field(heading as nat, 100_000) + seq![
        44u8,
    ]
}

/// The bytes between `$` and `*`: `GPRMC,hhmmss,A,lat,N,lon,E,speed,track,ddmmyy,0,W,`.
pub open spec fn body(t: CivilTime, loc: GeoPoint, speed: u64, heading: u64) -> Seq<u8> {
    seq![71u8, 80u8, 82u8, 77u8, 67u8, 44u8] + time_field(t) + seq![44u8, 65u8, 44u8]
        + position_fields(loc) + motion_fields(speed, heading) + date_field(t)
        + seq![44u8, 48u8, 44u8, 87u8, 44u8]
}

/// Exclusive-or of all bytes.
pub open spec fn xor_fold(s: Seq<u8>) -> u8
    decreases s.len(),
{
    if s.len() == 0 {
        0
    } else {
        xor_fold(s.drop_last()) ^ s.last()
    }
}

/// A whole sentence: `$`, the body, `*` and the checksum of the body in hex.
pub open spec fn sentence(t: CivilTime, loc: GeoPoint, speed: u64, heading: u64) -> Seq<u8> {
    let b = body(t, loc, speed, heading);
    seq![36u8] + b + seq![42u8] + hex2(xor_fold(b))
}

/// The record for one fix: its sentence, and where a pedestrian is attached,
/// `;` and the pedestrian's sentence at the same time.
pub open spec fn record(t: CivilTime, fix: Fix) -> Seq<u8> {
    let own = sentence(t, fix.location, fix.speed, fix.heading);
    match fix.secondary {
        Some(p) => own + seq![59u8] + sentence(t, p.location, p.speed, p.heading),
        None => own,
    }
}

/// The checksum of a sentence body: exclusive-or of its bytes.
pub fn checksum(body: &Vec<u8>) -> (r: u8)
    ensures
        r == xor_fold(body@),
{
    let mut acc: u8 = 0;
    let mut i: usize = 0;
    while i < body.len()
        invariant
            i <= body.len(),
            acc == xor_fold(body@.subrange(0, i as int)),
        decreases body.len() - i,
    {
        assert(body@.subrange(0, (i + 1) as int).drop_last() =~= body@.subrange(0, i as int));
        acc = acc ^ body[i];
        i = i + 1;
    }
    assert(body@.subrange(0, i as int) =~= body@);
    acc
}

fn push_bytes(out: &mut Vec<u8>, s: &[u8])
    ensures
        final(out)@ == old(out)@ + s@,
{
    let ghost start = out@;
    let mut i: usize = 0;
    while i < s.len()
        invariant
            i <= s.len(),
            out@ == start + s@.subrange(0, i as int),
        decreases s.len() - i,
    {
        out.push(s[i]);
        i = i + 1;
        assert(out@ =~= start + s@.subrange(0, i as int));
    }
    assert(s@.subrange(0, i as int) =~= s@);
}

fn push_tenths(out: &mut Vec<u8>, x: u64, unit: u64)
    requires
        unit > 1,
    ensures
        final(out)@ == old(out)@ + tenths_field(x as nat, unit as nat),
{
    proof {
        lemma_u64_div_bound(x, unit);
    }
    let t: u64 = x / unit + if x % unit >= unit / 2 { 1 } else { 0 };
    push_padded(out, t / 10, 3);
    out.push(46u8);
    out.push(48u8 + (t % 10) as u8);
    assert(final(out)@ =~= old(out)@ + tenths_field(x as nat, unit as nat));
}

proof fn lemma_u64_div_bound(x: u64, unit: u64)
    requires
        unit > 1,
    ensures
        x / unit + 1 <= u64::MAX,
{
    assert(x / unit <= x / 2) by (nonlinear_arith)
        requires unit > 1;
}

fn push_lat(out: &mut Vec<u8>, lat: i64)
    requires
        -crate::model::MAX_LAT <= lat <= crate::model::MAX_LAT,
    ensures
        final(out)@ == old(out)@ + lat_field(lat as int),
{
    let a: u64 = if lat < 0 { (-lat) as u64 } else { lat as u64 };
    let m = a % (UNITS_PER_DEGREE as u64);
    push_padded(out, a / (UNITS_PER_DEGREE as u64), 2);
    push_padded(out, m / 100_000, 2);
    out.push(46u8);
    push_padded(out, m % 100_000, 5);
    assert(final(out)@ =~= old(out)@ + lat_field(lat as int));
}

fn push_lon(out: &mut Vec<u8>, lon: i64)
    requires
        -crate::model::MAX_LON <= lon <= crate::model::MAX_LON,
    ensures
        final(out)@ == old(out)@ + lon_field(lon as int),
{
    let a: u64 = if lon < 0 { (-lon) as u64 } else { lon as u64 };
    let m = a % (UNITS_PER_DEGREE as u64);
    push_padded(out, a / (UNITS_PER_DEGREE as u64), 3);
    push_padded(out, m / 100_000, 2);
    out.push(46u8);
    push_padded(out, m % 100_000, 5);
    assert(final(out)@ =~= old(out)@ + lon_field(lon as int));
}

fn push_position(out: &mut Vec<u8>, loc: GeoPoint)
    requires
        loc.wf(),
    ensures
        final(out)@ == old(out)@ + position_fields(loc),
{
    push_lat(out, loc.lat);
    out.push(44u8);
    out.push(if loc.lat < 0 { 83u8 } else { 78u8 });
    out.push(44u8);
    push_lon(out, loc.lon);
    out.push(44u8);
    out.push(if loc.lon < 0 { 87u8 } else { 69u8 });
    out.push(44u8);
    assert(final(out)@ =~= old(out)@ + position_fields(loc));
}

fn push_motion(out: &mut Vec<u8>, speed: u64, heading: u64)
    ensures
        final(out)@ == old(out)@ + motion_fields(speed, heading),
{
    push_tenths(out, speed, SPEED_UNITS_PER_TENTH);
    out.push(44u8);
    push_tenths(out, heading, HEADING_UNITS_PER_TENTH);
    out.push(44u8);
    assert(final(out)@ =~= old(out)@ + motion_fields(speed, heading));
}

fn push_time(out: &mut Vec<u8>, t: &CivilTime)
    ensures
        final(out)@ == old(out)@ + time_field(*t),
{
    push_padded(out, t.hour as u64, 2);
    push_padded(out, t.minute as u64, 2);
    push_padded(out, t.second as u64, 2);
    assert(final(out)@ =~= old(out)@ + time_field(*t));
}

fn push_date(out: &mut Vec<u8>, t: &CivilTime)
    ensures
        final(out)@ == old(out)@ + date_field(*t),
{
    push_padded(out, t.day as u64, 2);
    push_padded(out, t.month as u64, 2);
    push_padded(out, (t.year % 100) as u64, 2);
    assert(final(out)@ =~= old(out)@ + date_field(*t));
}

/// The body of the sentence for a position, speed and heading at time `t`.
pub fn sentence_body(t: &CivilTime, loc: GeoPoint, speed: u64, heading: u64) -> (r: Vec<u8>)
    requires
        loc.wf(),
    ensures
        r@ == body(*t, loc, speed, heading),
{
    let mut b: Vec<u8> = Vec::new();
    push_bytes(&mut b, &[71u8, 80u8, 82u8, 77u8, 67u8, 44u8]);
    push_time(&mut b, t);
    push_bytes(&mut b, &[44u8, 65u8, 44u8]);
    push_position(&mut b, loc);
    push_motion(&mut b, speed, heading);
    push_date(&mut b, t);
    push_bytes(&mut b, &[44u8, 48u8, 44u8, 87u8, 44u8]);
    assert(b@ =~= body(*t, loc, speed, heading));
    b
}

fn push_sentence(out: &mut Vec<u8>, t: &CivilTime, loc: GeoPoint, speed: u64, heading: u64)
    requires
        loc.wf(),
    ensures
        final(out)@ == old(out)@ + sentence(*t, loc, speed, heading),
{
    let b = sentence_body(t, loc, speed, heading);
    let c = checksum(&b);
    out.push(36u8);
    push_bytes(out, b.as_slice());
    out.push(42u8);
    push_hex2(out, c);
    assert(final(out)@ =~= old(out)@ + sentence(*t, loc, speed, heading));
}

/// The record for a fix at time `t`: its sentence, followed by `;` and the
/// pedestrian's sentence where one is attached. No line terminator is added.
pub fn encode_fix(t: &CivilTime, fix: &Fix) -> (r: Vec<u8>)
    requires
        fix.wf(),
    ensures
        r@ == record(*t, *fix),
{
    let mut out: Vec<u8> = Vec::new();
    push_sentence(&mut out, t, fix.location, fix.speed, fix.heading);
    match fix.secondary {
        Some(p) => {
            out.push(59u8);
            push_sentence(&mut out, t, p.location, p.speed, p.heading);
        },
        None => {},
    }
    assert(out@ =~= record(*t, *fix));
    out
}

/// No byte of `s` is a sentence delimiter (`$` or `*`).
pub open spec fn free_of_delimiters(s: Seq<u8>) -> bool {
    forall|i: int| 0 <= i < s.len() ==> #[trigger] s[i] != 36u8 && s[i] != 42u8
}

proof fn lemma_free_concat(a: Seq<u8>, b: Seq<u8>)
    requires
        free_of_delimiters(a),
        free_of_delimiters(b),
    ensures
        free_of_delimiters(a + b),
{
    assert forall|i: int| 0 <= i < (a + b).len() implies #[trigger] (a + b)[i] != 36u8 && (a
        + b)[i] != 42u8 by {
        if i >= a.len() {
            assert((a + b)[i] == b[i - a.len()]);
        }
    }
}

proof fn lemma_padded_free(n: nat, w: nat)
    ensures
        free_of_delimiters(padded(n, w)),
{
    lemma_padded_are_digits(n, w);
}

proof fn lemma_minutes_free(m: nat)
    ensures
        free_of_delimiters(minutes_field(m)),
{
    lemma_padded_free(m / 100_000, 2);
    lemma_padded_free(m % 100_000, 5);
    lemma_free_concat(padded(m / 100_000, 2), seq![46u8]);
    lemma_free_concat(padded(m / 100_000, 2) + seq![46u8], padded(m % 100_000, 5));
}

proof fn lemma_position_free(loc: GeoPoint)
    ensures
        free_of_delimiters(position_fields(loc)),
{
    let la = abs(loc.lat as int);
    let lo = abs(loc.lon as int);
    lemma_padded_free(la / 6_000_000, 2);
    lemma_padded_free(lo / 6_000_000, 3);
    lemma_minutes_free(la % 6_000_000);
    lemma_minutes_free(lo % 6_000_000);
    lemma_free_concat(padded(la / 6_000_000, 2), minutes_field(la % 6_000_000));
    lemma_free_concat(padded(lo / 6_000_000, 3), minutes_field(lo % 6_000_000));
    let lat_f = lat_field(loc.lat as int);
    let lon_f = lon_field(loc.lon as int);
    let ns = seq![44u8, ns_letter(loc.lat as int), 44u8];
    let ew = seq![44u8, ew_letter(loc.lon as int), 44u8];
    lemma_free_concat(lat_f, ns);
    lemma_free_concat(lat_f + ns, lon_f);
    lemma_free_concat(lat_f + ns + lon_f, ew);
}

proof fn lemma_tenths_free(x: nat, unit: nat)
    ensures
        free_of_delimiters(tenths_field(x, unit)),
{
    let r = rounded(x, unit);
    lemma_padded_free(r / 10, 3);
    lemma_free_concat(padded(r / 10, 3), seq![46u8, digit(r % 10)]);
}

proof fn lemma_motion_free(speed: u64, heading: u64)
    ensures
        free_of_delimiters(motion_fields(speed, heading)),
{
    let sp = tenths_field(speed as nat, 100);
    let hd = tenths_field(heading as nat, 100_000);
    lemma_tenths_free(speed as nat, 100);
    lemma_tenths_free(heading as nat, 100_000);
    lemma_free_concat(sp, seq![44u8]);
    lemma_free_concat(sp + seq![44u8], hd);
    lemma_free_concat(sp + seq![44u8] + hd, seq![44u8]);
}

proof fn lemma_triple_free(a: nat, b: nat, c: nat)
    ensures
        free_of_delimiters(padded(a, 2) + padded(b, 2) + padded(c, 2)),
{
    lemma_padded_free(a, 2);
    lemma_padded_free(b, 2);
    lemma_padded_free(c, 2);
    lemma_free_concat(padded(a, 2), padded(b, 2));
    lemma_free_concat(padded(a, 2) + padded(b, 2), padded(c, 2));
}

proof fn lemma_body_free(t: CivilTime, loc: GeoPoint, speed: u64, heading: u64)
    ensures
        free_of_delimiters(body(t, loc, speed, heading)),
{
    let p0 = seq![71u8, 80u8, 82u8, 77u8, 67u8, 44u8];
    let p1 = seq![44u8, 65u8, 44u8];
    let p2 = seq![44u8, 48u8, 44u8, 87u8, 44u8];
    let tf = time_field(t);
    let pf = position_fields(loc);
    let mf = motion_fields(speed, heading);
    let df = date_field(t);
    lemma_triple_free(t.hour as nat, t.minute as nat, t.second as nat);
    lemma_triple_free(t.day as nat, t.month as nat, (t.year % 100) as nat);
    lemma_position_free(loc);
    lemma_motion_free(speed, heading);
    lemma_free_concat(p0, tf);
    lemma_free_concat(p0 + tf, p1);
    lemma_free_concat(p0 + tf + p1, pf);
    lemma_free_concat(p0 + tf + p1 + pf, mf);
    lemma_free_concat(p0 + tf + p1 + pf + mf, df);
    lemma_free_concat(p0 + tf + p1 + pf + mf + df, p2);
}

/// Every sentence reads `$`, a body without `$` or `*`, `*`, and two hex
/// digits that are the exclusive-or of the body's bytes: recomputing the
/// checksum over what lies between the delimiters gives the emitted digits.
pub proof fn lemma_sentence_checksum(t: CivilTime, loc: GeoPoint, speed: u64, heading: u64)
    ensures
        ({
            let s = sentence(t, loc, speed, heading);
            let n = s.len();
            &&& n >= 4
            &&& s[0] == 36u8
            &&& s[n - 3] == 42u8
            &&& free_of_delimiters(s.subrange(1, n - 3))
            &&& s.subrange(n - 2, n as int) == hex2(xor_fold(s.subrange(1, n - 3)))
        }),
{
    let b = body(t, loc, speed, heading);
    let s = sentence(t, loc, speed, heading);
    let n = s.len();
    lemma_body_free(t, loc, speed, heading);
    assert(s.subrange(1, n - 3) =~= b);
    assert(s.subrange(n - 2, n as int) =~= hex2(xor_fold(b)));
}

proof fn lemma_tenths_len(x: nat, unit: nat)
    requires
        unit == 100 || unit == 100_000,
        x < 9_999 * unit + unit / 2,
    ensures
        tenths_field(x, unit).len() == 5,
{
    reveal_with_fuel(pow10, 4);
    let r = rounded(x, unit);
    assert(r < 10_000) by (nonlinear_arith)
        requires
            unit == 100 || unit == 100_000,
            x < 9_999 * unit + unit / 2,
            r == x / unit + if x % unit >= unit / 2 { 1nat } else { 0nat },
    ;
    lemma_padded_len(r / 10, 3);
}

/// The fixed layout of a sentence: for a time of day and date in range, a
/// position in range, a speed below 999.95 knots and a heading below 999.95
/// degrees, every field has its fixed width (`hhmmss`, `DDMM.MMMMM`,
/// `DDDMM.MMMMM`, `DDD.D`, `DDD.D`, `ddmmyy`), so every sentence is 69 bytes.
pub proof fn lemma_sentence_layout(t: CivilTime, loc: GeoPoint, speed: u64, heading: u64)
    requires
        t.hour < 24,
        t.minute < 60,
        t.second < 60,
        1 <= t.day <= 31,
        1 <= t.month <= 12,
        loc.wf(),
        speed < 999_950,
        heading < 999_950_000,
    ensures
        time_field(t).len() == 6,
        date_field(t).len() == 6,
        lat_field(loc.lat as int).len() == 10,
        lon_field(loc.lon as int).len() == 11,
        tenths_field(speed as nat, 100).len() == 5,
        tenths_field(heading as nat, 100_000).len() == 5,
        body(t, loc, speed, heading).len() == 65,
        sentence(t, loc, speed, heading).len() == 69,
{
    reveal_with_fuel(pow10, 6);
    lemma_padded_len(t.hour as nat, 2);
    lemma_padded_len(t.minute as nat, 2);
    lemma_padded_len(t.second as nat, 2);
    lemma_padded_len(t.day as nat, 2);
    lemma_padded_len(t.month as nat, 2);
    lemma_padded_len((t.year % 100) as nat, 2);
    let la = abs(loc.lat as int);
    let lo = abs(loc.lon as int);
    lemma_padded_len(la / 6_000_000, 2);
    lemma_padded_len(lo / 6_000_000, 3);
    lemma_padded_len(la % 6_000_000 / 100_000, 2);
    lemma_padded_len(la % 6_000_000 % 100_000, 5);
    lemma_padded_len(lo % 6_000_000 / 100_000, 2);
    lemma_padded_len(lo % 6_000_000 % 100_000, 5);
    lemma_tenths_len(speed as nat, 100);
    lemma_tenths_len(heading as nat, 100_000);
    assert(la / 6_000_000 < 100 && lo / 6_000_000 < 1000);
    assert(la % 6_000_000 / 100_000 < 100);
    assert(lo % 6_000_000 / 100_000 < 100);
    assert(minutes_field(la % 6_000_000).len() == 8);
    assert(minutes_field(lo % 6_000_000).len() == 8);
    assert(lat_field(loc.lat as int).len() == 10);
    assert(lon_field(loc.lon as int).len() == 11);
    assert(position_fields(loc).len() == 27);
    assert(motion_fields(speed, heading).len() == 12);
}

} // verus!
