//! Credit records: their model, the generation of clean records from a
//! seeded random stream, and the injection of deliberate errors.

use vstd::prelude::*;
use crate::clock::{
    Timestamp, valid_timestamp, iso_date_text, plain_date, date_comes_after, iso_text_after, lemma_iso_date_text_len, date_after_days_text, utc_date_after_days_text, format_ymd,
    format_ymd_after_days, format_utc_date_after_days, now,
};
use crate::random::{
    RngState, chacha8_u64, chacha8_bool, chacha8_u64_in, chacha8_i64_in, chacha8_i32_in, chacha8_u32_in,
    chacha8_u8_in, chacha8_usize_in, chacha8_key, draw_u64, draw_bool, draw_u64_in, draw_i64_in, draw_i32_in,
    draw_u32_in, draw_u8_in, draw_usize_in, seeded, from_thread_rng,
};
use crate::text::{opt_view, owned, push_char, push_str, str_eq, decimal, zero_pad, zero_padded, all_digits};

verus! {

// ============================================================================
// Name lists
// ============================================================================

/// Whether a character is white space in the Unicode sense (what
/// `char::is_whitespace` tests).
pub open spec fn is_white_space(c: char) -> bool {
    let u = c as u32;
    (0x9 <= u <= 0xD) || u == 0x20 || u == 0x85 || u == 0xA0 || u == 0x1680 || (0x2000 <= u <= 0x200A) || u
        == 0x2028 || u == 0x2029 || u == 0x202F || u == 0x205F || u == 0x3000
}

/// `char::is_whitespace`.
fn white_space(c: char) -> (r: bool)
    ensures
        r == is_white_space(c),
{
    let u = c as u32;
    (0x9 <= u && u <= 0xD) || u == 0x20 || u == 0x85 || u == 0xA0 || u == 0x1680 || (0x2000 <= u && u <= 0x200A)
        || u == 0x2028 || u == 0x2029 || u == 0x202F || u == 0x205F || u == 0x3000
}

/// The pieces of the first `n` characters of `s` between commas: those
/// already closed by a comma, and the one still open.
pub open spec fn comma_pieces(s: Seq<char>, n: nat) -> (Seq<Seq<char>>, Seq<char>)
    decreases n,
{
    if n == 0 {
        (Seq::empty(), Seq::empty())
    } else {
        let prev = comma_pieces(s, (n - 1) as nat);
        if s[n - 1] == ',' {
            (prev.0.push(prev.1), Seq::empty())
        } else {
            (prev.0, prev.1.push(s[n - 1]))
        }
    }
}

/// The pieces of `s` between commas (what `split(',')` gives).
pub open spec fn split_commas(s: Seq<char>) -> Seq<Seq<char>> {
    let p = comma_pieces(s, s.len());
    p.0.push(p.1)
}

/// The number of white-space characters at the start of `p`.
pub open spec fn leading_space(p: Seq<char>) -> nat
    decreases p.len(),
{
    if p.len() > 0 && is_white_space(p[0]) {
        1 + leading_space(p.drop_first())
    } else {
        0
    }
}

/// The number of white-space characters at the end of `p`.
pub open spec fn trailing_space(p: Seq<char>) -> nat
    decreases p.len(),
{
    if p.len() > 0 && is_white_space(p.last()) {
        1 + trailing_space(p.drop_last())
    } else {
        0
    }
}

/// `p` without the white space at either end (what `trim` gives).
pub open spec fn trim_space(p: Seq<char>) -> Seq<char> {
    if leading_space(p) == p.len() {
        Seq::empty()
    } else {
        p.subrange(leading_space(p) as int, p.len() - trailing_space(p))
    }
}

/// The trimmed pieces among the first `n` that are not empty.
pub open spec fn kept_names(pieces: Seq<Seq<char>>, n: nat) -> Seq<Seq<char>>
    decreases n,
{
    if n == 0 {
        Seq::empty()
    } else {
        let prev = kept_names(pieces, (n - 1) as nat);
        let t = trim_space(pieces[n - 1]);
        if t.len() > 0 {
            prev.push(t)
        } else {
            prev
        }
    }
}

/// The names in a comma-separated list: each piece trimmed, empty ones left out.
pub open spec fn names_in(content: Seq<char>) -> Seq<Seq<char>> {
    kept_names(split_commas(content), split_commas(content).len())
}

/// Leading white space never exceeds the length.
proof fn lemma_leading_space_len(p: Seq<char>)
    ensures
        leading_space(p) <= p.len(),
        forall|i: int| 0 <= i < leading_space(p) ==> is_white_space(#[trigger] p[i]),
        leading_space(p) < p.len() ==> !is_white_space(p[leading_space(p) as int]),
    decreases p.len(),
{
    if p.len() > 0 && is_white_space(p[0]) {
        lemma_leading_space_len(p.drop_first());
        assert forall|i: int| 0 <= i < leading_space(p) implies is_white_space(#[trigger] p[i]) by {
            if i > 0 {
                assert(p[i] == p.drop_first()[i - 1]);
            }
        }
    }
}

/// Trailing white space never exceeds the length.
proof fn lemma_trailing_space_len(p: Seq<char>)
    ensures
        trailing_space(p) <= p.len(),
        forall|i: int| p.len() - trailing_space(p) <= i < p.len() ==> is_white_space(#[trigger] p[i]),
        trailing_space(p) < p.len() ==> !is_white_space(p[p.len() - 1 - trailing_space(p)]),
    decreases p.len(),
{
    if p.len() > 0 && is_white_space(p.last()) {
        lemma_trailing_space_len(p.drop_last());
        assert forall|i: int| p.len() - trailing_space(p) <= i < p.len() implies is_white_space(#[trigger] p[i]) by {
            if i < p.len() - 1 {
                assert(p[i] == p.drop_last()[i]);
            }
        }
    }
}

/// The number of white-space characters at the start of `p`.
fn count_leading(p: &Vec<char>) -> (r: usize)
    ensures
        r == leading_space(p@),
{
    let ghost s = p@;
    let mut i: usize = 0;
    assert(s.skip(0) =~= s);
    while i < p.len() && white_space(p[i])
        invariant
            i <= p.len(),
            s == p@,
            leading_space(s) == i + leading_space(s.skip(i as int)),
        decreases p.len() - i,
    {
        assert(s.skip(i as int)[0] == s[i as int]);
        assert(s.skip(i as int).drop_first() =~= s.skip(i + 1));
        i = i + 1;
    }
    if i < p.len() {
        assert(s.skip(i as int)[0] == s[i as int]);
    }
    i
}

/// The number of white-space characters at the end of `p`.
fn count_trailing(p: &Vec<char>) -> (r: usize)
    ensures
        r == trailing_space(p@),
{
    let ghost s = p@;
    let mut i: usize = 0;
    assert(s.take(s.len() as int) =~= s);
    while i < p.len() && white_space(p[p.len() - 1 - i])
        invariant
            i <= p.len(),
            s == p@,
            trailing_space(s) == i + trailing_space(s.take(s.len() - i)),
        decreases p.len() - i,
    {
        let ghost t = s.take(s.len() - i);
        assert(t.last() == s[s.len() - 1 - i]);
        assert(t.drop_last() =~= s.take(s.len() - i - 1));
        i = i + 1;
    }
    if i < p.len() {
        assert(s.take(s.len() - i).last() == s[s.len() - 1 - i]);
    }
    i
}

/// A piece without its surrounding white space, as a string.
fn trimmed(p: &Vec<char>) -> (r: String)
    ensures
        r@ == trim_space(p@),
{
    let lead = count_leading(p);
    if lead == p.len() {
        let e = String::new();
        assert(e@ =~= Seq::<char>::empty());
        return e;
    }
    let trail = count_trailing(p);
    proof {
        lemma_leading_space_len(p@);
        lemma_trailing_space_len(p@);
        if lead + trail > p@.len() {
            assert(is_white_space(p@[lead as int]));
        }
    }
    let mut out = String::new();
    let mut i: usize = lead;
    while i < p.len() - trail
        invariant
            lead <= i <= p.len() - trail,
            lead + trail <= p.len(),
            out@ == p@.subrange(lead as int, i as int),
        decreases p.len() - trail - i,
    {
        push_char(&mut out, p[i]);
        i = i + 1;
        assert(out@ =~= p@.subrange(lead as int, i as int));
    }
    out
}

/// Parses a comma-separated list of names: each piece is trimmed and empty
/// pieces are left out.
pub fn parse_names(content: &str) -> (r: Vec<String>)
    ensures
        r@.map_values(|s: String| s@) == names_in(content@),
{
    let ghost s = content@;
    let n = content.unicode_len();
    let mut out: Vec<String> = Vec::new();
    let mut done: usize = 0;
    let mut cur: Vec<char> = Vec::new();
    let mut i: usize = 0;
    while i < n
        invariant
            i <= n,
            n == s.len(),
            s == content@,
            cur@ == comma_pieces(s, i as nat).1,
            done == comma_pieces(s, i as nat).0.len(),
            done <= i,
            out@.map_values(|x: String| x@) == kept_names(comma_pieces(s, i as nat).0, done as nat),
        decreases n - i,
    {
        let c = content.get_char(i);
        if c == ',' {
            let t = trimmed(&cur);
            let ghost pieces = comma_pieces(s, (i + 1) as nat).0;
            proof {
                let prev = comma_pieces(s, i as nat).0;
                assert(pieces == prev.push(cur@));
                assert forall|k: nat| k <= prev.len() implies kept_names(pieces, k) == kept_names(prev, k) by {
                    lemma_kept_names_prefix(prev, pieces, k);
                }
            }
            if t.unicode_len() > 0 {
                out.push(t);
            }
            assert(out@.map_values(|x: String| x@) =~= kept_names(pieces, (done + 1) as nat));
            done = done + 1;
            cur = Vec::new();
        } else {
            cur.push(c);
        }
        i = i + 1;
    }
    let t = trimmed(&cur);
    let ghost all = split_commas(s);
    proof {
        let prev = comma_pieces(s, n as nat).0;
        assert(all == prev.push(cur@));
        lemma_kept_names_prefix(prev, all, done as nat);
    }
    if t.unicode_len() > 0 {
        out.push(t);
    }
    assert(out@.map_values(|x: String| x@) =~= kept_names(all, all.len()));
    out
}

/// Keeping names depends only on the pieces looked at.
proof fn lemma_kept_names_prefix(a: Seq<Seq<char>>, b: Seq<Seq<char>>, k: nat)
    requires
        k <= a.len(),
        k <= b.len(),
        forall|i: int| 0 <= i < k ==> a[i] == b[i],
    ensures
        kept_names(a, k) == kept_names(b, k),
    decreases k,
{
    if k > 0 {
        lemma_kept_names_prefix(a, b, (k - 1) as nat);
    }
}

/// The name lists credit records draw from.
#[derive(Debug)]
pub struct NameCatalog {
    pub male_first: Vec<String>,
    pub male_last: Vec<String>,
    pub female_first: Vec<String>,
    pub female_last: Vec<String>,
}

/// The name lists, by characters.
pub struct NamesView {
    pub male_first: Seq<Seq<char>>,
    pub male_last: Seq<Seq<char>>,
    pub female_first: Seq<Seq<char>>,
    pub female_last: Seq<Seq<char>>,
}

/// The characters of a list of strings.
pub open spec fn strings_view(v: Seq<String>) -> Seq<Seq<char>> {
    v.map_values(|s: String| s@)
}

impl View for NameCatalog {
    type V = NamesView;

    open spec fn view(&self) -> NamesView {
        NamesView {
            male_first: strings_view(self.male_first@),
            male_last: strings_view(self.male_last@),
            female_first: strings_view(self.female_first@),
            female_last: strings_view(self.female_last@),
        }
    }
}

impl NameCatalog {
    /// Whether every list holds at least one name.
    pub open spec fn complete(&self) -> bool {
        &&& self.male_first@.len() > 0
        &&& self.male_last@.len() > 0
        &&& self.female_first@.len() > 0
        &&& self.female_last@.len() > 0
    }

    /// The catalog read from the four comma-separated lists.
    pub fn parse(male_first: &str, male_last: &str, female_first: &str, female_last: &str) -> (r: Self)
        ensures
            r@.male_first == names_in(male_first@),
            r@.male_last == names_in(male_last@),
            r@.female_first == names_in(female_first@),
            r@.female_last == names_in(female_last@),
    {
        NameCatalog {
            male_first: parse_names(male_first),
            male_last: parse_names(male_last),
            female_first: parse_names(female_first),
            female_last: parse_names(female_last),
        }
    }
}


// ============================================================================
// Credit records
// ============================================================================

/// Credit record representing SLIK credit data.
#[derive(Debug)]
pub struct CreditRecord {
    /// Unique record identifier
    pub id: String,
    /// NIK (Nomor Induk Kependudukan) - Indonesian ID number
    pub nik: String,
    /// Full name
    pub nama_lengkap: String,
    /// Credit facility type
    pub jenis_fasilitas: String,
    /// Credit amount (minor units: rupiah)
    pub jumlah_kredit: i64,
    /// Currency code
    pub mata_uang: String,
    /// Interest rate (bps: basis points). Example: 750 = 7.50%
    pub suku_bunga_bps: i32,
    /// Start date
    pub tanggal_mulai: String,
    /// End date
    pub tanggal_jatuh_tempo: String,
    /// Outstanding balance (minor units: rupiah)
    pub saldo_outstanding: i64,
    /// Collectability status (1-5)
    pub kolektabilitas: u8,
    /// Branch code
    pub kode_cabang: String,
    /// Account officer
    pub account_officer: String,
    /// Last update timestamp (RFC3339)
    pub last_updated: String,
    /// Whether this record has intentional errors (for testing)
    pub _has_error: Option<bool>,
    /// Type of error injected (for testing)
    pub _error_type: Option<String>,
}

/// A credit record with its texts taken by their characters.
pub struct CreditView {
    pub id: Seq<char>,
    pub nik: Seq<char>,
    pub nama_lengkap: Seq<char>,
    pub jenis_fasilitas: Seq<char>,
    pub jumlah_kredit: i64,
    pub mata_uang: Seq<char>,
    pub suku_bunga_bps: i32,
    pub tanggal_mulai: Seq<char>,
    pub tanggal_jatuh_tempo: Seq<char>,
    pub saldo_outstanding: i64,
    pub kolektabilitas: u8,
    pub kode_cabang: Seq<char>,
    pub account_officer: Seq<char>,
    pub last_updated: Seq<char>,
    pub has_error: Option<bool>,
    pub error_type: Option<Seq<char>>,
}

impl View for CreditRecord {
    type V = CreditView;

    open spec fn view(&self) -> CreditView {
        CreditView {
            id: self.id@,
            nik: self.nik@,
            nama_lengkap: self.nama_lengkap@,
            jenis_fasilitas: self.jenis_fasilitas@,
            jumlah_kredit: self.jumlah_kredit,
            mata_uang: self.mata_uang@,
            suku_bunga_bps: self.suku_bunga_bps,
            tanggal_mulai: self.tanggal_mulai@,
            tanggal_jatuh_tempo: self.tanggal_jatuh_tempo@,
            saldo_outstanding: self.saldo_outstanding,
            kolektabilitas: self.kolektabilitas,
            kode_cabang: self.kode_cabang@,
            account_officer: self.account_officer@,
            last_updated: self.last_updated@,
            has_error: self._has_error,
            error_type: opt_view(self._error_type),
        }
    }
}

impl Clone for CreditRecord {
    fn clone(&self) -> (r: Self)
        ensures
            r@ == self@,
    {
        CreditRecord {
            id: self.id.clone(),
            nik: self.nik.clone(),
            nama_lengkap: self.nama_lengkap.clone(),
            jenis_fasilitas: self.jenis_fasilitas.clone(),
            jumlah_kredit: self.jumlah_kredit,
            mata_uang: self.mata_uang.clone(),
            suku_bunga_bps: self.suku_bunga_bps,
            tanggal_mulai: self.tanggal_mulai.clone(),
            tanggal_jatuh_tempo: self.tanggal_jatuh_tempo.clone(),
            saldo_outstanding: self.saldo_outstanding,
            kolektabilitas: self.kolektabilitas,
            kode_cabang: self.kode_cabang.clone(),
            account_officer: self.account_officer.clone(),
            last_updated: self.last_updated.clone(),
            _has_error: self._has_error,
            _error_type: match &self._error_type {
                Some(e) => Some(e.clone()),
                None => None,
            },
        }
    }
}

/// The facility type at a position of the facility list.
pub open spec fn facility_name(k: usize) -> Seq<char> {
    if k == 0 {
        "KPR"@
    } else if k == 1 {
        "KKB"@
    } else if k == 2 {
        "KMK"@
    } else if k == 3 {
        "KI"@
    } else if k == 4 {
        "KUR"@
    } else {
        "Kartu Kredit"@
    }
}

/// The branch code at a position of the branch list.
pub open spec fn branch_name(k: usize) -> Seq<char> {
    if k == 0 {
        "JKT001"@
    } else if k == 1 {
        "JKT002"@
    } else if k == 2 {
        "BDG001"@
    } else if k == 3 {
        "SBY001"@
    } else if k == 4 {
        "MDN001"@
    } else {
        "MKS001"@
    }
}

/// `a / 10`, but at least 1.
pub open spec fn tenth_at_least_one(a: i64) -> i64 {
    if a / 10 >= 1 {
        (a / 10) as i64
    } else {
        1
    }
}

/// The clean record with id `id` drawn from the stream with key `key` at
/// `p0`, and the position after its last draw. The draws come in this
/// order: the NIK, the gender, the first and the last name, the start date's
/// year offset, month and day, the term in days, the credit amount, the
/// outstanding balance, the facility, the rate, the collectability, the
/// branch and the officer number.
pub open spec fn clean_record(key: Seq<u8>, p0: u128, id: u64, names: NamesView) -> (CreditView, u128) {
    let nik = chacha8_u64_in(key, p0, 1_000_000_000_000_000, 9_999_999_999_999_998);
    let male = chacha8_bool(key, nik.1);
    let firsts = if male.0 {
        names.male_first
    } else {
        names.female_first
    };
    let lasts = if male.0 {
        names.male_last
    } else {
        names.female_last
    };
    let fi = chacha8_usize_in(key, male.1, 0, (firsts.len() - 1) as usize);
    let li = chacha8_usize_in(key, fi.1, 0, (lasts.len() - 1) as usize);
    let year = chacha8_i32_in(key, li.1, 0, 3);
    let month = chacha8_u32_in(key, year.1, 1, 12);
    let day = chacha8_u32_in(key, month.1, 1, 27);
    let term = chacha8_i64_in(key, day.1, 365, 3649);
    let kredit = chacha8_i64_in(key, term.1, 10_000_000, 9_999_999_999);
    let outstanding = chacha8_i64_in(key, kredit.1, tenth_at_least_one(kredit.0), kredit.0);
    let fac = chacha8_usize_in(key, outstanding.1, 0, 5);
    let bps = chacha8_i32_in(key, fac.1, 500, 1499);
    let kol = chacha8_u8_in(key, bps.1, 1, 5);
    let br = chacha8_usize_in(key, kol.1, 0, 5);
    let ao = chacha8_i32_in(key, br.1, 1, 999);
    (
        CreditView {
            id: "CR"@ + zero_pad(decimal(id as nat), 10),
            nik: zero_pad(decimal(nik.0 as nat), 16),
            nama_lengkap: firsts[fi.0 as int] + " "@ + lasts[li.0 as int],
            jenis_fasilitas: facility_name(fac.0),
            jumlah_kredit: kredit.0,
            mata_uang: "IDR"@,
            suku_bunga_bps: bps.0,
            tanggal_mulai: iso_date_text(2020 + year.0, month.0 as int, day.0 as int),
            tanggal_jatuh_tempo: date_after_days_text((2020 + year.0) as i32, month.0, day.0, term.0),
            saldo_outstanding: outstanding.0,
            kolektabilitas: kol.0,
            kode_cabang: branch_name(br.0),
            account_officer: "AO"@ + zero_pad(decimal(ao.0 as nat), 4),
            last_updated: "2024-01-"@ + zero_pad(decimal((id % 28 + 1) as nat), 2) + "T10:00:00Z"@,
            has_error: None,
            error_type: None,
        },
        ao.1,
    )
}

/// Whether a clean record is valid: a 16-digit NIK, a positive amount, an
/// outstanding balance no larger than it, a collectability from 1 to 5,
/// rupiah, and no error marks.
pub open spec fn is_valid_clean(r: CreditView) -> bool {
    &&& r.nik.len() == 16
    &&& all_digits(r.nik)
    &&& r.nama_lengkap.len() > 0
    &&& r.jumlah_kredit > 0
    &&& 0 < r.saldo_outstanding <= r.jumlah_kredit
    &&& 1 <= r.kolektabilitas <= 5
    &&& r.mata_uang == "IDR"@
    &&& r.has_error is None
    &&& r.error_type is None
}

/// The ranges a clean record is drawn from: a NIK that does not start with
/// `0`, an amount from ten million to below ten billion, an outstanding
/// balance of at least a tenth of it, and an interest rate from 500 to 1499
/// basis points; and a `YYYY-MM-DD` start date followed by a later
/// `YYYY-MM-DD` maturity date.
pub open spec fn in_clean_ranges(r: CreditView) -> bool {
    &&& r.nik.len() > 0 && r.nik[0] != '0'
    &&& exists|y: int, m: int, d: int|
        plain_date(y, m, d) && r.tanggal_mulai == #[trigger] iso_date_text(y, m, d) && iso_text_after(
            r.tanggal_jatuh_tempo,
            y,
            m,
            d,
        )
    &&& r.tanggal_mulai.len() == 10
    &&& r.tanggal_jatuh_tempo.len() == 10
    &&& 10_000_000 <= r.jumlah_kredit <= 9_999_999_999
    &&& r.jumlah_kredit / 10 <= r.saldo_outstanding
    &&& 500 <= r.suku_bunga_bps <= 1499
}

/// The first digit of the decimal rendering of a positive number is not `0`.
proof fn lemma_decimal_leading(n: nat)
    requires
        n >= 1,
    ensures
        decimal(n)[0] != '0',
    decreases n,
{
    if n >= 10 {
        lemma_decimal_leading(n / 10);
        crate::text::lemma_decimal_digits(n / 10);
        assert(decimal(n)[0] == decimal(n / 10)[0]);
    }
}

/// The decimal rendering of a number from 10^15 to below 10^16 has sixteen
/// digits.
proof fn lemma_sixteen_digits(n: nat)
    requires
        1_000_000_000_000_000 <= n < 10_000_000_000_000_000,
    ensures
        decimal(n).len() == 16,
{
    reveal_with_fuel(pow10, 17);
    lemma_decimal_len(n, 16);
}

/// A number from 10^(k-1) to below 10^k has a k-digit decimal rendering.
proof fn lemma_decimal_len(n: nat, k: nat)
    requires
        k >= 1,
        pow10((k - 1) as nat) <= n < pow10(k),
    ensures
        decimal(n).len() == k,
    decreases k,
{
    if k == 1 {
    } else {
        assert(n >= 10);
        assert(pow10(k) == 10 * pow10((k - 1) as nat));
        assert(pow10((k - 1) as nat) == 10 * pow10((k - 2) as nat));
        assert(pow10((k - 2) as nat) <= n / 10 < pow10((k - 1) as nat)) by (nonlinear_arith)
            requires
                pow10((k - 1) as nat) <= n < pow10(k),
                pow10(k) == 10 * pow10((k - 1) as nat),
                pow10((k - 1) as nat) == 10 * pow10((k - 2) as nat),
        ;
        lemma_decimal_len(n / 10, (k - 1) as nat);
    }
}

/// Ten to the `k`.
pub open spec fn pow10(k: nat) -> nat
    decreases k,
{
    if k == 0 {
        1
    } else {
        10 * pow10((k - 1) as nat)
    }
}


/// The facility type at a position of the facility list.
fn facility(k: usize) -> (r: &'static str)
    requires
        k <= 5,
    ensures
        r@ == facility_name(k),
{
    if k == 0 {
        "KPR"
    } else if k == 1 {
        "KKB"
    } else if k == 2 {
        "KMK"
    } else if k == 3 {
        "KI"
    } else if k == 4 {
        "KUR"
    } else {
        "Kartu Kredit"
    }
}

/// The branch code at a position of the branch list.
fn branch(k: usize) -> (r: &'static str)
    requires
        k <= 5,
    ensures
        r@ == branch_name(k),
{
    if k == 0 {
        "JKT001"
    } else if k == 1 {
        "JKT002"
    } else if k == 2 {
        "BDG001"
    } else if k == 3 {
        "SBY001"
    } else if k == 4 {
        "MDN001"
    } else {
        "MKS001"
    }
}

/// A prefix followed by a number zero-padded to `width` digits.
fn tagged_number(prefix: &str, n: u64, width: usize) -> (r: String)
    ensures
        r@ == prefix@ + zero_pad(decimal(n as nat), width as nat),
{
    let mut s = owned(prefix);
    let digits = zero_padded(n, width);
    push_str(&mut s, digits.as_str());
    s
}

impl CreditRecord {
    /// Generate a clean (valid) credit record with id `id`, drawing from the
    /// stream `rng` and the name lists.
    pub fn generate_clean(rng: &mut RngState, id: u64, names: &NameCatalog) -> (r: Self)
        requires
            names.complete(),
        ensures
            (r@, final(rng).word_pos) == clean_record(old(rng).seed@, old(rng).word_pos, id, names@),
            final(rng).seed == old(rng).seed,
            is_valid_clean(r@),
            in_clean_ranges(r@),
    {
        let ghost key = rng.seed@;
        let ghost p0 = rng.word_pos;
        let nik_n = draw_u64_in(rng, 1_000_000_000_000_000, 9_999_999_999_999_998);
        let is_male = draw_bool(rng);
        let firsts = if is_male {
            &names.male_first
        } else {
            &names.female_first
        };
        let lasts = if is_male {
            &names.male_last
        } else {
            &names.female_last
        };
        let fi = draw_usize_in(rng, 0, firsts.len() - 1);
        let li = draw_usize_in(rng, 0, lasts.len() - 1);
        let year_offset = draw_i32_in(rng, 0, 3);
        let month = draw_u32_in(rng, 1, 12);
        let day = draw_u32_in(rng, 1, 27);
        let term = draw_i64_in(rng, 365, 3649);
        let kredit = draw_i64_in(rng, 10_000_000, 9_999_999_999);
        let low: i64 = if kredit / 10 >= 1 {
            kredit / 10
        } else {
            1
        };
        let outstanding = draw_i64_in(rng, low, kredit);
        let fac = draw_usize_in(rng, 0, 5);
        let bps = draw_i32_in(rng, 500, 1499);
        let kol = draw_u8_in(rng, 1, 5);
        let br = draw_usize_in(rng, 0, 5);
        let ao = draw_i32_in(rng, 1, 999);
        let year = 2020 + year_offset;
        let mut name = firsts[fi].clone();
        push_str(&mut name, " ");
        push_str(&mut name, lasts[li].as_str());
        let mut last_updated = tagged_number("2024-01-", id % 28 + 1, 2);
        push_str(&mut last_updated, "T10:00:00Z");
        let r = CreditRecord {
            id: tagged_number("CR", id, 10),
            nik: zero_padded(nik_n, 16),
            nama_lengkap: name,
            jenis_fasilitas: owned(facility(fac)),
            jumlah_kredit: kredit,
            mata_uang: owned("IDR"),
            suku_bunga_bps: bps,
            tanggal_mulai: format_ymd(year, month, day),
            tanggal_jatuh_tempo: format_ymd_after_days(year, month, day, term),
            saldo_outstanding: outstanding,
            kolektabilitas: kol,
            kode_cabang: owned(branch(br)),
            account_officer: tagged_number("AO", ao as u64, 4),
            last_updated,
            _has_error: None,
            _error_type: None,
        };
        proof {
            let names_v = names@;
            if is_male {
                assert(names_v.male_first[fi as int] == names.male_first@[fi as int]@);
                assert(names_v.male_last[li as int] == names.male_last@[li as int]@);
            } else {
                assert(names_v.female_first[fi as int] == names.female_first@[fi as int]@);
                assert(names_v.female_last[li as int] == names.female_last@[li as int]@);
            }
            reveal_strlit(" ");
            lemma_sixteen_digits(nik_n as nat);
            crate::text::lemma_decimal_digits(nik_n as nat);
            assert(r@ == clean_record(key, p0, id, names_v).0);
            assert(r.nik@ == decimal(nik_n as nat));
            lemma_decimal_leading(nik_n as nat);
            let (sy, sm, sd) = (year as int, month as int, day as int);
            assert(plain_date(sy, sm, sd));
            lemma_iso_date_text_len(sy, sm, sd);
            assert(r.tanggal_mulai@ == iso_date_text(sy, sm, sd));
            assert(iso_text_after(r.tanggal_jatuh_tempo@, sy, sm, sd));
            let (y1, m1, d1) = choose|y1: int, m1: int, d1: int|
                plain_date(y1, m1, d1) && date_comes_after(y1, m1, d1, sy, sm, sd) && r.tanggal_jatuh_tempo@
                    == #[trigger] iso_date_text(y1, m1, d1);
            lemma_iso_date_text_len(y1, m1, d1);
            assert(r.nama_lengkap@.len() > 0);
        }
        r
    }
}


// ============================================================================
// Error injection
// ============================================================================

/// `a + b`, held to the range of `i64`.
pub open spec fn saturating_sum(a: i64, b: i64) -> i64 {
    if a + b > i64::MAX {
        i64::MAX
    } else if a + b < i64::MIN {
        i64::MIN
    } else {
        (a + b) as i64
    }
}

/// `a + b`, held to the range of `i64` (`i64::saturating_add`).
fn saturating_add(a: i64, b: i64) -> (r: i64)
    ensures
        r == saturating_sum(a, b),
{
    if b > 0 && a > i64::MAX - b {
        i64::MAX
    } else if b < 0 && a < i64::MIN - b {
        i64::MIN
    } else {
        a + b
    }
}

/// The invalid currency at a position of the list of invalid currencies.
pub open spec fn invalid_currency_name(k: usize) -> Seq<char> {
    if k == 0 {
        "XXX"@
    } else if k == 1 {
        "INVALID"@
    } else if k == 2 {
        "123"@
    } else {
        Seq::empty()
    }
}

/// The error types a generated dataset draws from.
pub open spec fn listed_error_type(k: usize) -> Seq<char> {
    if k == 0 {
        "invalid_nik"@
    } else if k == 1 {
        "negative_amount"@
    } else if k == 2 {
        "invalid_date"@
    } else if k == 3 {
        "missing_field"@
    } else if k == 4 {
        "invalid_currency"@
    } else if k == 5 {
        "invalid_collectability"@
    } else {
        "outstanding_gt_plafon"@
    }
}

/// The record `rec` with the error `et` injected, drawing from the stream
/// with key `key` at `p0` (and, for a future start date, counting from the
/// instant `now`), and the position after the draws. The record is marked
/// as having an error of that type; then:
/// - `invalid_nik`: a ten-digit NIK, `ABC` and thirteen digits, or none;
/// - `negative_amount`: a negative credit amount;
/// - `invalid_date`: an impossible or unreadable start date, or no maturity date;
/// - `missing_field`: an empty name, facility, branch or officer;
/// - `invalid_currency`: a currency that is not one;
/// - `invalid_collectability`: a collectability from 6 to 99;
/// - `future_start_date`: a start date 30 to 364 days after `now`;
/// - `end_before_start`: start and maturity dates swapped;
/// - `outstanding_gt_plafon`: an outstanding balance above the amount;
/// - any other type: the NIK `INVALID`.
pub open spec fn injected(rec: CreditView, key: Seq<u8>, p0: u128, et: Seq<char>, now: Timestamp) -> (CreditView, u128) {
    let marked = CreditView { has_error: Some(true), error_type: Some(et), ..rec };
    if et == "invalid_nik"@ {
        let c = chacha8_i32_in(key, p0, 0, 2);
        if c.0 == 0 {
            let n = chacha8_u64_in(key, c.1, 1_000_000_000, 9_999_999_998);
            (CreditView { nik: zero_pad(decimal(n.0 as nat), 10), ..marked }, n.1)
        } else if c.0 == 1 {
            let n = chacha8_u64_in(key, c.1, 1_000_000_000_000, 9_999_999_999_998);
            (CreditView { nik: "ABC"@ + zero_pad(decimal(n.0 as nat), 13), ..marked }, n.1)
        } else {
            (CreditView { nik: Seq::empty(), ..marked }, c.1)
        }
    } else if et == "negative_amount"@ {
        let a = chacha8_i64_in(key, p0, 1_000, 99_999_999);
        (CreditView { jumlah_kredit: (-a.0) as i64, ..marked }, a.1)
    } else if et == "invalid_date"@ {
        let c = chacha8_i32_in(key, p0, 0, 2);
        if c.0 == 0 {
            (CreditView { tanggal_mulai: "2024-13-45"@, ..marked }, c.1)
        } else if c.0 == 1 {
            (CreditView { tanggal_mulai: "not-a-date"@, ..marked }, c.1)
        } else {
            (CreditView { tanggal_jatuh_tempo: Seq::empty(), ..marked }, c.1)
        }
    } else if et == "missing_field"@ {
        let c = chacha8_i32_in(key, p0, 0, 3);
        if c.0 == 0 {
            (CreditView { nama_lengkap: Seq::empty(), ..marked }, c.1)
        } else if c.0 == 1 {
            (CreditView { jenis_fasilitas: Seq::empty(), ..marked }, c.1)
        } else if c.0 == 2 {
            (CreditView { kode_cabang: Seq::empty(), ..marked }, c.1)
        } else {
            (CreditView { account_officer: Seq::empty(), ..marked }, c.1)
        }
    } else if et == "invalid_currency"@ {
        let k = chacha8_usize_in(key, p0, 0, 3);
        (CreditView { mata_uang: invalid_currency_name(k.0), ..marked }, k.1)
    } else if et == "invalid_collectability"@ {
        let v = chacha8_u8_in(key, p0, 6, 99);
        (CreditView { kolektabilitas: v.0, ..marked }, v.1)
    } else if et == "future_start_date"@ {
        let d = chacha8_i64_in(key, p0, 30, 364);
        (CreditView { tanggal_mulai: utc_date_after_days_text(now.secs, now.nanos, d.0), ..marked }, d.1)
    } else if et == "end_before_start"@ {
        (CreditView { tanggal_mulai: rec.tanggal_jatuh_tempo, tanggal_jatuh_tempo: rec.tanggal_mulai, ..marked }, p0)
    } else if et == "outstanding_gt_plafon"@ {
        let a = chacha8_i64_in(key, p0, 1_000, 999_999);
        (CreditView { saldo_outstanding: saturating_sum(rec.jumlah_kredit, a.0), ..marked }, a.1)
    } else {
        (CreditView { nik: "INVALID"@, ..marked }, p0)
    }
}

/// The invalid currency at a position of the list of invalid currencies.
fn invalid_currency(k: usize) -> (r: &'static str)
    requires
        k <= 3,
    ensures
        r@ == invalid_currency_name(k),
{
    if k == 0 {
        "XXX"
    } else if k == 1 {
        "INVALID"
    } else if k == 2 {
        "123"
    } else {
        let e = "";
        proof {
            reveal_strlit("");
        }
        e
    }
}

/// The error type at a position of the list a generated dataset draws from.
fn listed_error(k: usize) -> (r: &'static str)
    requires
        k <= 6,
    ensures
        r@ == listed_error_type(k),
{
    if k == 0 {
        "invalid_nik"
    } else if k == 1 {
        "negative_amount"
    } else if k == 2 {
        "invalid_date"
    } else if k == 3 {
        "missing_field"
    } else if k == 4 {
        "invalid_currency"
    } else if k == 5 {
        "invalid_collectability"
    } else {
        "outstanding_gt_plafon"
    }
}

/// An empty string.
fn empty_text() -> (r: String)
    ensures
        r@ == Seq::<char>::empty(),
{
    let r = String::new();
    assert(r@ =~= Seq::<char>::empty());
    r
}

impl CreditRecord {
    /// Inject the error `error_type` into the record, drawing from the stream
    /// `rng`; a future start date is counted from the instant `now`.
    pub fn inject_error_at(self, rng: &mut RngState, error_type: &str, now: Timestamp) -> (r: Self)
        requires
            valid_timestamp(now),
        ensures
            (r@, final(rng).word_pos) == injected(self@, old(rng).seed@, old(rng).word_pos, error_type@, now),
            final(rng).seed == old(rng).seed,
            error_breaks(error_type@, self@, r@),
            error_type@ == "future_start_date"@ ==> future_start_from(r@, now),
    {
        proof {
            lemma_error_type_lengths();
            reveal_strlit("ABC");
            reveal_strlit("XXX");
            reveal_strlit("INVALID");
            reveal_strlit("123");
        }
        let ghost key = rng.seed@;
        let ghost p0 = rng.word_pos;
        let ghost et = error_type@;
        let mut rec = self;
        rec._has_error = Some(true);
        rec._error_type = Some(owned(error_type));
        if str_eq(error_type, "invalid_nik") {
            let choice = draw_i32_in(rng, 0, 2);
            if choice == 0 {
                let n = draw_u64_in(rng, 1_000_000_000, 9_999_999_998);
                rec.nik = zero_padded(n, 10);
                proof {
                    lemma_ten_digits(n as nat);
                    crate::text::lemma_decimal_digits(n as nat);
                }
            } else if choice == 1 {
                let n = draw_u64_in(rng, 1_000_000_000_000, 9_999_999_999_998);
                rec.nik = tagged_number("ABC", n, 13);
                assert(!crate::text::is_digit(rec.nik@[0]));
                proof {
                    lemma_thirteen_digits(n as nat);
                    crate::text::lemma_decimal_digits(n as nat);
                    assert(rec.nik@.take(3) =~= "ABC"@);
                    assert(rec.nik@.skip(3) =~= decimal(n as nat));
                }
            } else {
                rec.nik = empty_text();
            }
        } else if str_eq(error_type, "negative_amount") {
            let a = draw_i64_in(rng, 1_000, 99_999_999);
            rec.jumlah_kredit = -a;
        } else if str_eq(error_type, "invalid_date") {
            let choice = draw_i32_in(rng, 0, 2);
            if choice == 0 {
                rec.tanggal_mulai = owned("2024-13-45");
            } else if choice == 1 {
                rec.tanggal_mulai = owned("not-a-date");
            } else {
                rec.tanggal_jatuh_tempo = empty_text();
            }
        } else if str_eq(error_type, "missing_field") {
            let choice = draw_i32_in(rng, 0, 3);
            if choice == 0 {
                rec.nama_lengkap = empty_text();
            } else if choice == 1 {
                rec.jenis_fasilitas = empty_text();
            } else if choice == 2 {
                rec.kode_cabang = empty_text();
            } else {
                rec.account_officer = empty_text();
            }
        } else if str_eq(error_type, "invalid_currency") {
            let k = draw_usize_in(rng, 0, 3);
            rec.mata_uang = owned(invalid_currency(k));
        } else if str_eq(error_type, "invalid_collectability") {
            rec.kolektabilitas = draw_u8_in(rng, 6, 99);
        } else if str_eq(error_type, "future_start_date") {
            let days = draw_i64_in(rng, 30, 364);
            rec.tanggal_mulai = format_utc_date_after_days(now, days);
        } else if str_eq(error_type, "end_before_start") {
            let start = rec.tanggal_mulai;
            rec.tanggal_mulai = rec.tanggal_jatuh_tempo;
            rec.tanggal_jatuh_tempo = start;
        } else if str_eq(error_type, "outstanding_gt_plafon") {
            let a = draw_i64_in(rng, 1_000, 999_999);
            rec.saldo_outstanding = saturating_add(rec.jumlah_kredit, a);
        } else {
            rec.nik = owned("INVALID");
        }
        rec
    }

    /// Inject the error `error_type` into the record, drawing from the stream
    /// `rng`; a future start date is counted from the current time.
    pub fn inject_error(self, rng: &mut RngState, error_type: &str) -> (r: Self)
        ensures
            exists|t: Timestamp|
                valid_timestamp(t) && (r@, final(rng).word_pos) == injected(
                    self@,
                    old(rng).seed@,
                    old(rng).word_pos,
                    error_type@,
                    t,
                ) && (error_type@ == "future_start_date"@ ==> future_start_from(r@, t)),
            final(rng).seed == old(rng).seed,
            error_breaks(error_type@, self@, r@),
    {
        let t = now();
        self.inject_error_at(rng, error_type, t)
    }
}


/// What an injected error leaves in the record: the error marks, and the
/// broken field for each known type.
pub open spec fn error_breaks(et: Seq<char>, before: CreditView, after: CreditView) -> bool {
    &&& after.has_error == Some(true)
    &&& after.error_type == Some(et)
    &&& et == "invalid_nik"@ ==> !(after.nik.len() == 16 && all_digits(after.nik))
    &&& et == "invalid_nik"@ ==> (after.nik.len() == 10 && all_digits(after.nik)) || (after.nik.len() == 16
        && after.nik.take(3) == "ABC"@ && all_digits(after.nik.skip(3))) || after.nik.len() == 0
    &&& et == "negative_amount"@ ==> -99_999_999 <= after.jumlah_kredit <= -1_000
    &&& et == "invalid_date"@ ==> after.tanggal_mulai == "2024-13-45"@ || after.tanggal_mulai == "not-a-date"@
        || after.tanggal_jatuh_tempo.len() == 0
    &&& et == "missing_field"@ ==> after.nama_lengkap.len() == 0 || after.jenis_fasilitas.len() == 0
        || after.kode_cabang.len() == 0 || after.account_officer.len() == 0
    &&& et == "invalid_currency"@ ==> after.mata_uang == "XXX"@ || after.mata_uang == "INVALID"@ || after.mata_uang
        == "123"@ || after.mata_uang.len() == 0
    &&& et == "invalid_collectability"@ ==> 6 <= after.kolektabilitas <= 99
    &&& et == "end_before_start"@ ==> after.tanggal_mulai == before.tanggal_jatuh_tempo
        && after.tanggal_jatuh_tempo == before.tanggal_mulai
    &&& et == "outstanding_gt_plafon"@ ==> (before.jumlah_kredit < i64::MAX ==> after.saldo_outstanding
        > after.jumlah_kredit)
    &&& et == "outstanding_gt_plafon"@ ==> saturating_sum(before.jumlah_kredit, 1_000) <= after.saldo_outstanding
        <= saturating_sum(before.jumlah_kredit, 999_999)
}

/// Breaking the dates of a clean record changes exactly one of its two
/// dates (the start date made impossible or unreadable, or the maturity
/// date emptied), and nothing else but the error marks.
pub proof fn law_invalid_date_breaks_one_date(before: CreditView, key: Seq<u8>, p0: u128, now: Timestamp)
    requires
        in_clean_ranges(before),
    ensures
        ({
            let after = injected(before, key, p0, "invalid_date"@, now).0;
            &&& (after.tanggal_mulai == before.tanggal_mulai) != (after.tanggal_jatuh_tempo
                == before.tanggal_jatuh_tempo)
            &&& after == CreditView {
                tanggal_mulai: after.tanggal_mulai,
                tanggal_jatuh_tempo: after.tanggal_jatuh_tempo,
                has_error: Some(true),
                error_type: Some("invalid_date"@),
                ..before
            }
        }),
{
    lemma_error_type_lengths();
    let (y, m, d) = choose|y: int, m: int, d: int|
        plain_date(y, m, d) && before.tanggal_mulai == #[trigger] iso_date_text(y, m, d) && iso_text_after(
            before.tanggal_jatuh_tempo,
            y,
            m,
            d,
        );
    let t = iso_date_text(y, m, d);
    let year = zero_pad(decimal(y as nat), 4);
    let month = zero_pad(decimal(m as nat), 2);
    reveal_with_fuel(pow10, 5);
    crate::clock::lemma_decimal_at_most(y as nat, 4, 10000);
    crate::text::lemma_decimal_digits(y as nat);
    crate::text::lemma_zero_pad_value(decimal(y as nat), 4);
    reveal_strlit("-");
    reveal_strlit("2024-13-45");
    reveal_strlit("not-a-date");
    assert(year.len() == 4);
    assert(t[0] == year[0]);
    assert(crate::text::is_digit(year[0]));
    assert(t[5] == month[0] && t[6] == month[1]) by {
        crate::clock::lemma_decimal_at_most(m as nat, 2, 100);
        crate::text::lemma_decimal_digits(m as nat);
    }
    if m < 10 {
        assert(month[0] == '0');
    } else {
        assert(decimal(m as nat) == decimal(m as nat / 10).push(crate::text::digit_char(m as nat % 10)));
        assert(month[1] == crate::text::digit_char(m as nat % 10));
    }
    assert(t != "2024-13-45"@) by {
        if t == "2024-13-45"@ {
            assert(t[5] == '1' && t[6] == '3');
        }
    }
    assert(t != "not-a-date"@) by {
        if t == "not-a-date"@ {
            assert(t[0] == 'n');
        }
    }
    assert(before.tanggal_jatuh_tempo.len() == 10);
}

/// Whether a record's start date is the UTC date 30 to 364 days after `now`.
pub open spec fn future_start_from(after: CreditView, now: Timestamp) -> bool {
    exists|d: i64| 30 <= d <= 364 && #[trigger] utc_date_after_days_text(now.secs, now.nanos, d) == after.tanggal_mulai
}

/// A ten-digit rendering.
proof fn lemma_ten_digits(n: nat)
    requires
        1_000_000_000 <= n < 10_000_000_000,
    ensures
        decimal(n).len() == 10,
{
    reveal_with_fuel(pow10, 11);
    lemma_decimal_len(n, 10);
}

/// A thirteen-digit rendering.
proof fn lemma_thirteen_digits(n: nat)
    requires
        1_000_000_000_000 <= n < 10_000_000_000_000,
    ensures
        decimal(n).len() == 13,
{
    reveal_with_fuel(pow10, 14);
    lemma_decimal_len(n, 13);
}

/// The lengths of the error type names, which tell them apart.
proof fn lemma_error_type_lengths()
    ensures
        "invalid_nik"@.len() == 11,
        "negative_amount"@.len() == 15,
        "invalid_date"@.len() == 12,
        "missing_field"@.len() == 13,
        "invalid_currency"@.len() == 16,
        "invalid_collectability"@.len() == 22,
        "future_start_date"@.len() == 17,
        "end_before_start"@.len() == 16,
        "outstanding_gt_plafon"@.len() == 21,
        "invalid_currency"@[8] != "end_before_start"@[8],
{
    reveal_strlit("invalid_nik");
    reveal_strlit("negative_amount");
    reveal_strlit("invalid_date");
    reveal_strlit("missing_field");
    reveal_strlit("invalid_currency");
    reveal_strlit("invalid_collectability");
    reveal_strlit("future_start_date");
    reveal_strlit("end_before_start");
    reveal_strlit("outstanding_gt_plafon");
}

/// The records of a generated dataset among the first `n`, and the stream
/// position after them: record `i` gets the id `start_id + i`; when the
/// threshold is positive a draw below it makes the record dirty, with an
/// error type drawn from the listed ones.
pub open spec fn generated(
    key: Seq<u8>,
    pos: u128,
    threshold: u64,
    start_id: nat,
    names: NamesView,
    n: nat,
) -> (Seq<CreditView>, u128)
    decreases n,
{
    if n == 0 {
        (Seq::empty(), pos)
    } else {
        let prev = generated(key, pos, threshold, start_id, names, (n - 1) as nat);
        let rec = dataset_record(key, prev.1, (start_id + n - 1) as u64, threshold, names);
        (prev.0.push(rec.0), rec.1)
    }
}

/// One record of a generated dataset and the stream position after it: a
/// clean record, made dirty when the threshold is positive and a draw falls
/// below it (always, at the largest threshold), with an error type drawn
/// from the listed ones.
pub open spec fn dataset_record(key: Seq<u8>, pos: u128, id: u64, threshold: u64, names: NamesView) -> (CreditView, u128) {
    let clean = clean_record(key, pos, id, names);
    if threshold > 0 {
        let d = chacha8_u64(key, clean.1);
        if threshold == u64::MAX || d.0 < threshold {
            let k = chacha8_usize_in(key, d.1, 0, 6);
            injected(clean.0, key, k.1, listed_error_type(k.0), epoch())
        } else {
            (clean.0, d.1)
        }
    } else {
        clean
    }
}

/// A generated record is dirty exactly when the draw that follows its clean
/// fields falls below the dirty ratio's threshold (always at the largest
/// threshold, never at zero); when the draw is at or above the threshold
/// the record is the clean record, unmarked. So a higher threshold never
/// turns a dirty record clean.
pub proof fn law_dirty_exactly_below_threshold(
    key: Seq<u8>,
    pos: u128,
    id: u64,
    names: NamesView,
    threshold: u64,
    higher: u64,
)
    requires
        threshold <= higher,
    ensures
        ({
            let clean = clean_record(key, pos, id, names);
            let d = chacha8_u64(key, clean.1).0;
            let rec = dataset_record(key, pos, id, threshold, names).0;
            &&& (rec.has_error == Some(true)) <==> (threshold == u64::MAX || (threshold > 0 && d < threshold))
            &&& threshold < u64::MAX && d >= threshold ==> rec == clean.0 && rec.has_error is None
            &&& rec.has_error == Some(true) ==> dataset_record(key, pos, id, higher, names).0.has_error == Some(true)
        }),
{
}

/// A streamed record is dirty exactly when the top 53 bits of the draw that
/// follows its clean fields fall below the unit threshold; otherwise it is
/// the clean record, unmarked.
pub proof fn law_streamed_dirty_exactly_below_threshold(
    key: Seq<u8>,
    pos: u128,
    id: u64,
    names: NamesView,
    unit_threshold: u64,
)
    ensures
        ({
            let clean = clean_record(key, pos, id, names);
            let d = chacha8_u64(key, clean.1).0;
            let rec = streamed_record(key, pos, id, unit_threshold, names).0;
            &&& (rec.has_error == Some(true)) <==> (unit_threshold > 0 && d / 2048 < unit_threshold)
            &&& !(unit_threshold > 0 && d / 2048 < unit_threshold) ==> rec == clean.0 && rec.has_error is None
        }),
{
}

/// The instant the listed error types are injected at (none of them reads it).
pub open spec fn epoch() -> Timestamp {
    Timestamp { secs: 0, nanos: 0 }
}

/// The id of the record numbered `n`: `CR` and the number padded to ten digits.
pub open spec fn record_id_text(n: nat) -> Seq<char> {
    "CR"@ + zero_pad(decimal(n), 10)
}

/// The views of a list of records.
pub open spec fn records_view(v: Seq<CreditRecord>) -> Seq<CreditView> {
    v.map_values(|r: CreditRecord| r@)
}

/// Generates `count` records with ids from `start_id`, drawing from the
/// stream `rng`; a record is made dirty when a draw falls below `threshold`.
pub fn generate_from_stream(rng: &mut RngState, count: u32, threshold: u64, start_id: u64, names: &NameCatalog) -> (r: Vec<
    CreditRecord,
>)
    requires
        names.complete(),
        start_id + count <= u64::MAX,
    ensures
        (records_view(r@), final(rng).word_pos) == generated(
            old(rng).seed@,
            old(rng).word_pos,
            threshold,
            start_id as nat,
            names@,
            count as nat,
        ),
        final(rng).seed == old(rng).seed,
        r@.len() == count,
        forall|i: int| 0 <= i < count ==> (#[trigger] r@[i])@.id == record_id_text((start_id + i) as nat),
        forall|i: int|
            0 <= i < count ==> is_valid_clean((#[trigger] r@[i])@) || (r@[i]@.has_error == Some(true) && threshold > 0),
{
    let ghost key = rng.seed@;
    let ghost p0 = rng.word_pos;
    let mut records: Vec<CreditRecord> = Vec::new();
    let mut i: u32 = 0;
    while i < count
        invariant
            i <= count,
            names.complete(),
            start_id + count <= u64::MAX,
            rng.seed@ == key,
            (records_view(records@), rng.word_pos) == generated(key, p0, threshold, start_id as nat, names@, i as nat),
            records@.len() == i,
            forall|j: int| 0 <= j < i ==> (#[trigger] records@[j])@.id == record_id_text((start_id + j) as nat),
            forall|j: int|
                0 <= j < i ==> is_valid_clean((#[trigger] records@[j])@) || (records@[j]@.has_error == Some(true)
                    && threshold > 0),
        decreases count - i,
    {
        let ghost before = records_view(records@);
        let record = CreditRecord::next_dataset_record(rng, start_id + i as u64, threshold, names);
        records.push(record);
        assert(records_view(records@) =~= before.push(record@));
        i = i + 1;
    }
    records
}

/// One record of a generated stream: clean, or dirty when the top 53 bits
/// of a draw fall below `unit_threshold` (which is how a uniform draw in
/// `[0, 1)` falls below the dirty ratio).
pub open spec fn streamed_record(key: Seq<u8>, pos: u128, id: u64, unit_threshold: u64, names: NamesView) -> (CreditView, u128) {
    let clean = clean_record(key, pos, id, names);
    if unit_threshold > 0 {
        let d = chacha8_u64(key, clean.1);
        if d.0 / 2048 < unit_threshold {
            let k = chacha8_usize_in(key, d.1, 0, 6);
            injected(clean.0, key, k.1, listed_error_type(k.0), epoch())
        } else {
            (clean.0, d.1)
        }
    } else {
        clean
    }
}

impl CreditRecord {
    /// The next record of a generated dataset: clean, or dirty when the
    /// threshold is positive and a draw falls below it.
    pub fn next_dataset_record(rng: &mut RngState, id: u64, threshold: u64, names: &NameCatalog) -> (r: Self)
        requires
            names.complete(),
        ensures
            (r@, final(rng).word_pos) == dataset_record(old(rng).seed@, old(rng).word_pos, id, threshold, names@),
            final(rng).seed == old(rng).seed,
            r@.id == record_id_text(id as nat),
            is_valid_clean(r@) || (r@.has_error == Some(true) && threshold > 0),
    {
        let record = CreditRecord::generate_clean(rng, id, names);
        if threshold > 0 {
            let d = draw_u64(rng);
            if threshold == u64::MAX || d < threshold {
                let k = draw_usize_in(rng, 0, 6);
                return record.inject_error_at(rng, listed_error(k), Timestamp { secs: 0, nanos: 0 });
            }
        }
        record
    }

    /// The next record of a generated stream.
    pub fn generate_streamed(rng: &mut RngState, id: u64, unit_threshold: u64, names: &NameCatalog) -> (r: Self)
        requires
            names.complete(),
        ensures
            (r@, final(rng).word_pos) == streamed_record(old(rng).seed@, old(rng).word_pos, id, unit_threshold, names@),
            final(rng).seed == old(rng).seed,
    {
        let record = CreditRecord::generate_clean(rng, id, names);
        if unit_threshold > 0 {
            let d = draw_u64(rng);
            if d / 2048 < unit_threshold {
                let k = draw_usize_in(rng, 0, 6);
                return record.inject_error_at(rng, listed_error(k), Timestamp { secs: 0, nanos: 0 });
            }
        }
        record
    }
}

} // verus!
