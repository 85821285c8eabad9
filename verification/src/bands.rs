//! Ham-radio and shortwave band catalog, ITU regions and region-specific
//! band edges.
//!
//! Frequencies are held in hertz and skip distances in whole kilometres, so
//! every band edge of the catalog is an exact integer.
use crate::text;
use vstd::prelude::*;

verus! {

/// Frequency class of a band.
#[derive(Debug, Clone, Copy, PartialEq, Eq, Structural)]
pub enum BandType {
    /// High Frequency (3-30 MHz).
    HF,
    /// Medium Frequency (300 kHz - 3 MHz).
    MF,
}

/// The label of a band type.
pub open spec fn band_type_label(t: BandType) -> Seq<char> {
    match t {
        BandType::HF => "HF"@,
        BandType::MF => "MF"@,
    }
}

impl BandType {
    /// The label shown for this band type ("HF" or "MF").
    pub fn to_display_string(&self) -> (s: String)
        ensures
            s@ == band_type_label(*self),
    {
        match self {
            BandType::HF => String::from_str("HF"),
            BandType::MF => String::from_str("MF"),
        }
    }
}

/// ITU radio regulation region.
#[derive(Debug, Clone, Copy, PartialEq, Eq, Structural)]
pub enum ITURegion {
    /// Europe, Africa, Middle East.
    Region1,
    /// Americas.
    Region2,
    /// Asia-Pacific.
    Region3,
}

/// The short name of a region ("1", "2" or "3").
pub open spec fn region_short(r: ITURegion) -> Seq<char> {
    match r {
        ITURegion::Region1 => "1"@,
        ITURegion::Region2 => "2"@,
        ITURegion::Region3 => "3"@,
    }
}

/// The long name of a region.
pub open spec fn region_long(r: ITURegion) -> Seq<char> {
    match r {
        ITURegion::Region1 => "Europe, Africa, Middle East"@,
        ITURegion::Region2 => "Americas"@,
        ITURegion::Region3 => "Asia-Pacific"@,
    }
}

/// The display text of a region.
pub open spec fn region_display(r: ITURegion) -> Seq<char> {
    "Region "@ + region_short(r) + " ("@ + region_long(r) + ")"@
}

/// What parsing a region from text gives back: the trimmed text must be one
/// of the short names.
pub open spec fn parse_region_spec(s: Seq<char>) -> Option<ITURegion> {
    let t = text::trim(s);
    if t == "1"@ {
        Some(ITURegion::Region1)
    } else if t == "2"@ {
        Some(ITURegion::Region2)
    } else if t == "3"@ {
        Some(ITURegion::Region3)
    } else {
        None
    }
}

impl ITURegion {
    /// The short name ("1", "2" or "3").
    pub fn short_name(&self) -> (s: &'static str)
        ensures
            s@ == region_short(*self),
    {
        match self {
            ITURegion::Region1 => "1",
            ITURegion::Region2 => "2",
            ITURegion::Region3 => "3",
        }
    }

    /// The long, geographic name.
    pub fn long_name(&self) -> (s: &'static str)
        ensures
            s@ == region_long(*self),
    {
        match self {
            ITURegion::Region1 => "Europe, Africa, Middle East",
            ITURegion::Region2 => "Americas",
            ITURegion::Region3 => "Asia-Pacific",
        }
    }

    /// "Region <short> (<long>)".
    pub fn to_display_string(&self) -> (s: String)
        ensures
            s@ == region_display(*self),
    {
        let mut v: Vec<char> = Vec::new();
        text::push_str(&mut v, "Region ");
        text::push_str(&mut v, self.short_name());
        text::push_str(&mut v, " (");
        text::push_str(&mut v, self.long_name());
        text::push_str(&mut v, ")");
        text::string_of(&v)
    }

    /// Parses a region from its short name, surrounding whitespace ignored.
    /// The error text names the rejected input.
    pub fn parse(s: &str) -> (r: Result<ITURegion, String>)
        ensures
            r matches Ok(region) ==> parse_region_spec(s@) == Some(region),
            r matches Err(msg) ==> parse_region_spec(s@) is None && msg@ == "Invalid ITU region '"@
                + s@ + "'. Must be 1, 2, or 3."@,
    {
        let cs = text::chars_of(s);
        let t = text::trim_chars(&cs);
        if text::chars_eq_str(&t, "1") {
            Ok(ITURegion::Region1)
        } else if text::chars_eq_str(&t, "2") {
            Ok(ITURegion::Region2)
        } else if text::chars_eq_str(&t, "3") {
            Ok(ITURegion::Region3)
        } else {
            let mut v: Vec<char> = Vec::new();
            text::push_str(&mut v, "Invalid ITU region '");
            text::push_all(&mut v, &cs);
            text::push_str(&mut v, "'. Must be 1, 2, or 3.");
            Err(text::string_of(&v))
        }
    }
}

/// All three regions, in order.
pub const ALL_REGIONS: [ITURegion; 3] = [ITURegion::Region1, ITURegion::Region2, ITURegion::Region3];

/// The set of regions a band is allocated in.
#[derive(Debug, Clone, Copy, PartialEq, Eq, Structural)]
pub struct RegionSet {
    pub region1: bool,
    pub region2: bool,
    pub region3: bool,
}

impl RegionSet {
    /// Whether the set holds the region.
    pub open spec fn has(self, region: ITURegion) -> bool {
        match region {
            ITURegion::Region1 => self.region1,
            ITURegion::Region2 => self.region2,
            ITURegion::Region3 => self.region3,
        }
    }

    /// Every region.
    pub fn all() -> (s: RegionSet)
        ensures
            s == (RegionSet { region1: true, region2: true, region3: true }),
    {
        RegionSet { region1: true, region2: true, region3: true }
    }

    /// Whether the set holds the region.
    pub fn contains(&self, region: ITURegion) -> (b: bool)
        ensures
            b == self.has(region),
    {
        match region {
            ITURegion::Region1 => self.region1,
            ITURegion::Region2 => self.region2,
            ITURegion::Region3 => self.region3,
        }
    }
}

/// One band of the catalog.
#[derive(Debug, Clone, Copy)]
pub struct Band {
    pub name: &'static str,
    pub band_type: BandType,
    /// Lower band edge in Hz.
    pub freq_low_hz: u64,
    /// Upper band edge in Hz.
    pub freq_high_hz: u64,
    /// Centre frequency in Hz.
    pub freq_center_hz: u64,
    /// Typical (min, max) skip distance in km.
    pub typical_skip_km: (u32, u32),
    /// Regions the band is available in.
    pub regions: RegionSet,
}

/// Number of bands in the catalog.
pub const BAND_COUNT: usize = 21;

/// Hertz per megahertz.
pub const HZ_PER_MHZ: u64 = 1000000;

/// A catalog entry.
pub open spec fn entry(
    name: &'static str,
    band_type: BandType,
    low: u64,
    high: u64,
    center: u64,
    skip_min: u32,
    skip_max: u32,
) -> Band {
    Band {
        name,
        band_type,
        freq_low_hz: low,
        freq_high_hz: high,
        freq_center_hz: center,
        typical_skip_km: (skip_min, skip_max),
        regions: RegionSet { region1: true, region2: true, region3: true },
    }
}

/// The catalog, entry by entry (0-based; ham bands first, then shortwave
/// broadcast bands).
pub open spec fn catalog(i: int) -> Band {
    if i == 0 {
        entry("160m", BandType::HF, 1800000, 2000000, 1900000, 100, 2000)
    } else if i == 1 {
        entry("80m", BandType::HF, 3500000, 4000000, 3750000, 50, 1500)
    } else if i == 2 {
        entry("60m", BandType::HF, 5351500, 5366500, 5359000, 50, 1200)
    } else if i == 3 {
        entry("40m", BandType::HF, 7000000, 7300000, 7150000, 50, 1000)
    } else if i == 4 {
        entry("30m", BandType::HF, 10100000, 10150000, 10125000, 100, 800)
    } else if i == 5 {
        entry("20m", BandType::HF, 14000000, 14350000, 14175000, 150, 800)
    } else if i == 6 {
        entry("17m", BandType::HF, 18068000, 18168000, 18118000, 150, 800)
    } else if i == 7 {
        entry("15m", BandType::HF, 21000000, 21450000, 21225000, 200, 1000)
    } else if i == 8 {
        entry("12m", BandType::HF, 24890000, 24990000, 24940000, 200, 1000)
    } else if i == 9 {
        entry("10m", BandType::HF, 28000000, 29700000, 28850000, 250, 1200)
    } else if i == 10 {
        entry("120m SW (2.3-2.495 MHz)", BandType::MF, 2300000, 2495000, 2398000, 100, 1500)
    } else if i == 11 {
        entry("90m SW (3.2-3.4 MHz)", BandType::MF, 3200000, 3400000, 3300000, 100, 1200)
    } else if i == 12 {
        entry("75m SW (3.9-4.0 MHz)", BandType::HF, 3900000, 4000000, 3950000, 50, 1500)
    } else if i == 13 {
        entry("49m SW (5.9-6.2 MHz)", BandType::HF, 5900000, 6200000, 6050000, 50, 1200)
    } else if i == 14 {
        entry("41m SW (7.2-7.45 MHz)", BandType::HF, 7200000, 7450000, 7325000, 50, 1000)
    } else if i == 15 {
        entry("31m SW (9.4-9.9 MHz)", BandType::HF, 9400000, 9900000, 9650000, 100, 1000)
    } else if i == 16 {
        entry("25m SW (11.6-12.1 MHz)", BandType::HF, 11600000, 12100000, 11850000, 200, 1000)
    } else if i == 17 {
        entry("22m SW (13.57-13.87 MHz)", BandType::HF, 13570000, 13870000, 13720000, 200, 1000)
    } else if i == 18 {
        entry("19m SW (15.1-15.8 MHz)", BandType::HF, 15100000, 15800000, 15450000, 250, 1200)
    } else if i == 19 {
        entry("16m SW (17.48-17.9 MHz)", BandType::HF, 17480000, 17900000, 17690000, 250, 1200)
    } else {
        entry("13m SW (21.45-21.85 MHz)", BandType::HF, 21450000, 21850000, 21650000, 250, 1200)
    }
}

fn make_entry(
    name: &'static str,
    band_type: BandType,
    low: u64,
    high: u64,
    center: u64,
    skip_min: u32,
    skip_max: u32,
) -> (b: Band)
    ensures
        b == entry(name, band_type, low, high, center, skip_min, skip_max),
{
    Band {
        name,
        band_type,
        freq_low_hz: low,
        freq_high_hz: high,
        freq_center_hz: center,
        typical_skip_km: (skip_min, skip_max),
        regions: RegionSet::all(),
    }
}

/// The catalog entry at a 0-based index.
pub fn catalog_band(i: usize) -> (b: Band)
    requires
        i < BAND_COUNT,
    ensures
        b == catalog(i as int),
{
    if i == 0 {
        make_entry("160m", BandType::HF, 1800000, 2000000, 1900000, 100, 2000)
    } else if i == 1 {
        make_entry("80m", BandType::HF, 3500000, 4000000, 3750000, 50, 1500)
    } else if i == 2 {
        make_entry("60m", BandType::HF, 5351500, 5366500, 5359000, 50, 1200)
    } else if i == 3 {
        make_entry("40m", BandType::HF, 7000000, 7300000, 7150000, 50, 1000)
    } else if i == 4 {
        make_entry("30m", BandType::HF, 10100000, 10150000, 10125000, 100, 800)
    } else if i == 5 {
        make_entry("20m", BandType::HF, 14000000, 14350000, 14175000, 150, 800)
    } else if i == 6 {
        make_entry("17m", BandType::HF, 18068000, 18168000, 18118000, 150, 800)
    } else if i == 7 {
        make_entry("15m", BandType::HF, 21000000, 21450000, 21225000, 200, 1000)
    } else if i == 8 {
        make_entry("12m", BandType::HF, 24890000, 24990000, 24940000, 200, 1000)
    } else if i == 9 {
        make_entry("10m", BandType::HF, 28000000, 29700000, 28850000, 250, 1200)
    } else if i == 10 {
        make_entry("120m SW (2.3-2.495 MHz)", BandType::MF, 2300000, 2495000, 2398000, 100, 1500)
    } else if i == 11 {
        make_entry("90m SW (3.2-3.4 MHz)", BandType::MF, 3200000, 3400000, 3300000, 100, 1200)
    } else if i == 12 {
        make_entry("75m SW (3.9-4.0 MHz)", BandType::HF, 3900000, 4000000, 3950000, 50, 1500)
    } else if i == 13 {
        make_entry("49m SW (5.9-6.2 MHz)", BandType::HF, 5900000, 6200000, 6050000, 50, 1200)
    } else if i == 14 {
        make_entry("41m SW (7.2-7.45 MHz)", BandType::HF, 7200000, 7450000, 7325000, 50, 1000)
    } else if i == 15 {
        make_entry("31m SW (9.4-9.9 MHz)", BandType::HF, 9400000, 9900000, 9650000, 100, 1000)
    } else if i == 16 {
        make_entry("25m SW (11.6-12.1 MHz)", BandType::HF, 11600000, 12100000, 11850000, 200, 1000)
    } else if i == 17 {
        make_entry(
            "22m SW (13.57-13.87 MHz)",
            BandType::HF,
            13570000,
            13870000,
            13720000,
            200,
            1000,
        )
    } else if i == 18 {
        make_entry("19m SW (15.1-15.8 MHz)", BandType::HF, 15100000, 15800000, 15450000, 250, 1200)
    } else if i == 19 {
        make_entry(
            "16m SW (17.48-17.9 MHz)",
            BandType::HF,
            17480000,
            17900000,
            17690000,
            250,
            1200,
        )
    } else {
        make_entry(
            "13m SW (21.45-21.85 MHz)",
            BandType::HF,
            21450000,
            21850000,
            21650000,
            250,
            1200,
        )
    }
}

/// Region-specific band edges (in Hz) that override the catalog: 80m and
/// 40m differ by ITU region, 60m uses the shared WRC-15 segment.
pub open spec fn region_range(index: int, region: ITURegion) -> Option<(u64, u64)> {
    if index == 1 {
        Some(
            match region {
                ITURegion::Region1 => (3500000u64, 3800000u64),
                ITURegion::Region2 => (3500000u64, 4000000u64),
                ITURegion::Region3 => (3500000u64, 3900000u64),
            },
        )
    } else if index == 2 {
        Some((5351500u64, 5366500u64))
    } else if index == 3 {
        Some(
            match region {
                ITURegion::Region1 => (7000000u64, 7200000u64),
                ITURegion::Region2 => (7000000u64, 7300000u64),
                ITURegion::Region3 => (7000000u64, 7200000u64),
            },
        )
    } else {
        None
    }
}

/// The band at a catalog index as seen in a region: overridden edges, and
/// the centre moved to their midpoint.
pub open spec fn band_in_region(base: Band, index: int, region: ITURegion) -> Band {
    match region_range(index, region) {
        Some((low, high)) => Band {
            freq_low_hz: low,
            freq_high_hz: high,
            freq_center_hz: ((low + high) / 2) as u64,
            ..base
        },
        None => base,
    }
}

/// The region-specific band edges for a catalog index, if any.
pub fn region_adjusted_range(index: usize, region: ITURegion) -> (r: Option<(u64, u64)>)
    ensures
        r == region_range(index as int, region),
{
    if index == 1 {
        Some(
            match region {
                ITURegion::Region1 => (3500000u64, 3800000u64),
                ITURegion::Region2 => (3500000u64, 4000000u64),
                ITURegion::Region3 => (3500000u64, 3900000u64),
            },
        )
    } else if index == 2 {
        Some((5351500u64, 5366500u64))
    } else if index == 3 {
        Some(
            match region {
                ITURegion::Region1 => (7000000u64, 7200000u64),
                ITURegion::Region2 => (7000000u64, 7300000u64),
                ITURegion::Region3 => (7000000u64, 7200000u64),
            },
        )
    } else {
        None
    }
}

/// The band at a catalog index as seen in a region.
pub fn band_for_region(base: &Band, index: usize, region: ITURegion) -> (b: Band)
    ensures
        b == band_in_region(*base, index as int, region),
{
    match region_adjusted_range(index, region) {
        Some((low, high)) => {
            let mut adjusted = *base;
            adjusted.freq_low_hz = low;
            adjusted.freq_high_hz = high;
            adjusted.freq_center_hz = (low + high) / 2;
            adjusted
        },
        None => *base,
    }
}

/// The catalog bands available in a region among the first `n` entries,
/// each with its 0-based catalog index, in catalog order.
pub open spec fn region_bands_upto(region: ITURegion, n: int) -> Seq<(usize, Band)>
    decreases n,
{
    if n <= 0 {
        Seq::empty()
    } else {
        let prev = region_bands_upto(region, n - 1);
        if catalog(n - 1).regions.has(region) {
            prev.push(((n - 1) as usize, band_in_region(catalog(n - 1), n - 1, region)))
        } else {
            prev
        }
    }
}

/// The catalog bands available in a region, each with its 0-based index.
pub open spec fn region_bands(region: ITURegion) -> Seq<(usize, Band)> {
    region_bands_upto(region, BAND_COUNT as int)
}

/// Every catalog band is allocated in every region.
pub proof fn lemma_catalog_all_regions(i: int, region: ITURegion)
    ensures
        catalog(i).regions.has(region),
{
}

/// The region listing holds every catalog entry, at its own position.
pub proof fn lemma_region_bands_upto(region: ITURegion, n: int)
    requires
        0 <= n,
    ensures
        region_bands_upto(region, n).len() == n,
        forall|k: int|
            0 <= k < n ==> #[trigger] region_bands_upto(region, n)[k] == (
                k as usize,
                band_in_region(catalog(k), k, region),
            ),
    decreases n,
{
    if n > 0 {
        lemma_region_bands_upto(region, n - 1);
        lemma_catalog_all_regions(n - 1, region);
    }
}

/// The region listing holds every catalog entry, at its own position.
pub proof fn lemma_region_bands(region: ITURegion)
    ensures
        region_bands(region).len() == BAND_COUNT,
        forall|k: int|
            0 <= k < BAND_COUNT ==> #[trigger] region_bands(region)[k] == (
                k as usize,
                band_in_region(catalog(k), k, region),
            ),
{
    lemma_region_bands_upto(region, BAND_COUNT as int);
}

/// All catalog bands available in a region, as (0-based index, band as seen
/// in that region), in catalog order.
pub fn get_bands_for_region(region: ITURegion) -> (v: Vec<(usize, Band)>)
    ensures
        v@ == region_bands(region),
{
    let mut v: Vec<(usize, Band)> = Vec::new();
    let mut i: usize = 0;
    while i < BAND_COUNT
        invariant
            i <= BAND_COUNT,
            v@ == region_bands_upto(region, i as int),
        decreases BAND_COUNT - i,
    {
        let band = catalog_band(i);
        if band.regions.contains(region) {
            v.push((i, band_for_region(&band, i, region)));
        }
        i = i + 1;
    }
    v
}

/// The band at a 0-based catalog index as seen in a region, or `None` when
/// the index is past the catalog or the band is not allocated there.
pub fn get_band_by_index_for_region(index: usize, region: ITURegion) -> (r: Option<Band>)
    ensures
        index < BAND_COUNT && catalog(index as int).regions.has(region) ==> r == Some(
            band_in_region(catalog(index as int), index as int, region),
        ),
        !(index < BAND_COUNT && catalog(index as int).regions.has(region)) ==> r is None,
{
    if index >= BAND_COUNT {
        return None;
    }
    let band = catalog_band(index);
    if band.regions.contains(region) {
        Some(band_for_region(&band, index, region))
    } else {
        None
    }
}

// ---------------------------------------------------------------------------
// Display
// ---------------------------------------------------------------------------

/// `s` without its trailing '0' characters.
pub open spec fn strip_trailing_zeros(s: Seq<char>) -> Seq<char>
    decreases s.len(),
{
    if s.len() > 0 && s.last() == '0' {
        strip_trailing_zeros(s.drop_last())
    } else {
        s
    }
}

/// `s` left-padded with '0' to `width` characters.
pub open spec fn zero_pad(s: Seq<char>, width: nat) -> Seq<char> {
    if s.len() >= width {
        s
    } else {
        Seq::new((width - s.len()) as nat, |i: int| '0') + s
    }
}

/// A frequency given in Hz, written in MHz with at least one decimal: the
/// whole part, then the fractional digits without trailing zeros, or ".0"
/// for a whole number of megahertz ("7.0", "7.2", "2.495").
pub open spec fn mhz_text(hz: nat) -> Seq<char> {
    let whole = hz / 1000000;
    let frac = hz % 1000000;
    if frac == 0 {
        text::decimal(whole) + ".0"@
    } else {
        text::decimal(whole) + "."@ + strip_trailing_zeros(zero_pad(text::decimal(frac), 6))
    }
}

/// The display text of a band: "<name> [<type>] (<low>-<high> MHz)".
pub open spec fn band_display(b: Band) -> Seq<char> {
    b.name@ + " ["@ + band_type_label(b.band_type) + "] ("@ + mhz_text(b.freq_low_hz as nat)
        + "-"@ + mhz_text(b.freq_high_hz as nat) + " MHz)"@
}

fn strip_trailing_zeros_exec(s: Vec<char>) -> (r: Vec<char>)
    ensures
        r@ == strip_trailing_zeros(s@),
{
    let mut r = s;
    while r.len() > 0 && r[r.len() - 1] == '0'
        invariant
            strip_trailing_zeros(r@) == strip_trailing_zeros(s@),
        decreases r.len(),
    {
        r.pop();
    }
    r
}

fn zero_pad_exec(s: &[char], width: usize) -> (r: Vec<char>)
    ensures
        r@ == zero_pad(s@, width as nat),
{
    let mut r: Vec<char> = Vec::new();
    if s.len() >= width {
        text::push_all(&mut r, s);
        assert(r@ =~= s@);
        return r;
    }
    let pad = width - s.len();
    let mut i: usize = 0;
    while i < pad
        invariant
            i <= pad,
            r@ =~= Seq::new(i as nat, |k: int| '0'),
        decreases pad - i,
    {
        r.push('0');
        i = i + 1;
        assert(r@ =~= Seq::new(i as nat, |k: int| '0'));
    }
    text::push_all(&mut r, s);
    r
}

/// A frequency in Hz written in MHz with at least one decimal.
pub fn mhz_chars(hz: u64) -> (r: Vec<char>)
    ensures
        r@ == mhz_text(hz as nat),
{
    let whole = hz / HZ_PER_MHZ;
    let frac = hz % HZ_PER_MHZ;
    let mut r = text::decimal_chars(whole);
    if frac != 0 {
        r.push('.');
        let digits = text::decimal_chars(frac);
        let padded = zero_pad_exec(&digits, 6);
        let stripped = strip_trailing_zeros_exec(padded);
        text::push_all(&mut r, &stripped);
        assert(r@ =~= text::decimal(whole as nat) + "."@ + strip_trailing_zeros(
            zero_pad(text::decimal(frac as nat), 6),
        )) by {
            reveal_strlit(".");
        }
    } else {
        r.push('.');
        r.push('0');
        assert(r@ =~= text::decimal(whole as nat) + ".0"@) by {
            reveal_strlit(".0");
        }
    }
    r
}

impl Band {
    /// "<name> [<type>] (<low>-<high> MHz)".
    pub fn to_display_string(&self) -> (s: String)
        ensures
            s@ == band_display(*self),
    {
        let mut v: Vec<char> = Vec::new();
        text::push_str(&mut v, self.name);
        text::push_str(&mut v, " [");
        match self.band_type {
            BandType::HF => text::push_str(&mut v, "HF"),
            BandType::MF => text::push_str(&mut v, "MF"),
        }
        text::push_str(&mut v, "] (");
        let low = mhz_chars(self.freq_low_hz);
        text::push_all(&mut v, &low);
        text::push_str(&mut v, "-");
        let high = mhz_chars(self.freq_high_hz);
        text::push_all(&mut v, &high);
        text::push_str(&mut v, " MHz)");
        text::string_of(&v)
    }
}

} // verus!
