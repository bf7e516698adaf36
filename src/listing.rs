use vstd::prelude::*;

verus! {

/// Kind of a listing entry.
#[derive(PartialEq, Eq, Structural, Clone, Copy, Debug)]
pub enum FileType {
    File,
    Directory,
}

/// Binary unit of a humanized size.
#[derive(PartialEq, Eq, Structural, Clone, Copy, Debug)]
pub enum SizeUnit {
    B,
    K,
    M,
    G,
    T,
    P,
}

/// Bytes in one `u`.
pub open spec fn unit_bytes(u: SizeUnit) -> nat {
    match u {
        SizeUnit::B => 1,
        SizeUnit::K => 1024,
        SizeUnit::M => 1048576,
        SizeUnit::G => 1073741824,
        SizeUnit::T => 1099511627776,
        SizeUnit::P => 1125899906842624,
    }
}

/// Largest number of decimal places a humanized size keeps: with a 64-bit
/// byte count, ten to this power still fits the 128-bit comparison.
pub const MAX_DECIMALS: u8 = 19;

/// `10` to the power `d`.
pub open spec fn scale_of(d: u8) -> nat
    decreases d,
{
    if d == 0 {
        1
    } else {
        10 * scale_of((d - 1) as u8)
    }
}

proof fn lemma_scale_mono(a: u8, b: u8)
    requires
        a <= b,
    ensures
        1 <= scale_of(a) <= scale_of(b),
    decreases b,
{
    if b > a {
        lemma_scale_mono(a, (b - 1) as u8);
    } else if a > 0 {
        lemma_scale_mono(0, (a - 1) as u8);
    }
}

proof fn lemma_scale_bound(d: u8)
    requires
        d <= MAX_DECIMALS,
    ensures
        1 <= scale_of(d) <= 10000000000000000000,
{
    lemma_scale_mono(d, 19);
    reveal_with_fuel(scale_of, 20);
}

/// Size of a remote file as a listing reports it.
#[derive(PartialEq, Eq, Structural, Clone, Copy, Debug)]
pub enum FileSize {
    /// An exact number of bytes.
    Precise(u64),
    /// `digits / 10^decimals` units, rounded down to the decimals shown.
    HumanizedBinary { digits: u64, decimals: u8, unit: SizeUnit },
}

impl FileSize {
    pub open spec fn wf(&self) -> bool {
        match *self {
            FileSize::Precise(_) => true,
            FileSize::HumanizedBinary { decimals, .. } => decimals <= MAX_DECIMALS,
        }
    }

    /// Whether a local file of `local` bytes agrees with this size: equal to a
    /// precise size, or inside the rounding interval of a humanized one.
    pub open spec fn admits(&self, local: nat) -> bool {
        match *self {
            FileSize::Precise(n) => n == local,
            FileSize::HumanizedBinary { digits, decimals, unit } =>
                digits * unit_bytes(unit) <= local * scale_of(decimals)
                && local * scale_of(decimals) < (digits + 1) * unit_bytes(unit),
        }
    }

    /// Estimated bytes: a humanized size rounded down, saturated at `u64::MAX`.
    pub open spec fn estimated(&self) -> nat {
        match *self {
            FileSize::Precise(n) => n as nat,
            FileSize::HumanizedBinary { digits, decimals, unit } => {
                let e = ((digits * unit_bytes(unit)) as int / scale_of(decimals) as int) as nat;
                if e > u64::MAX { u64::MAX as nat } else { e }
            },
        }
    }

    pub fn get_estimated(&self) -> (r: u64)
        requires
            self.wf(),
        ensures
            r == self.estimated(),
    {
        match *self {
            FileSize::Precise(n) => n,
            FileSize::HumanizedBinary { digits, decimals, unit } => {
                let ub = unit_bytes_exec(unit);
                let sc = scale_exec(decimals);
                assert(digits * unit_bytes(unit) <= u64::MAX * 1125899906842624) by (nonlinear_arith)
                    requires digits <= u64::MAX, unit_bytes(unit) <= 1125899906842624;
                let e = (digits as u128) * ub / sc;
                if e > u64::MAX as u128 {
                    u64::MAX
                } else {
                    e as u64
                }
            },
        }
    }

    /// Whether a local file of `local` bytes agrees with this size.
    pub fn matches_local(&self, local: u64) -> (r: bool)
        requires
            self.wf(),
        ensures
            r == self.admits(local as nat),
    {
        match *self {
            FileSize::Precise(n) => n == local,
            FileSize::HumanizedBinary { digits, decimals, unit } => {
                let ub = unit_bytes_exec(unit);
                let sc = scale_exec(decimals);
                assert((digits + 1) * unit_bytes(unit) <= (u64::MAX + 1) * 1125899906842624)
                    by (nonlinear_arith)
                    requires digits <= u64::MAX, unit_bytes(unit) <= 1125899906842624;
                assert(digits * unit_bytes(unit) <= u64::MAX * 1125899906842624) by (nonlinear_arith)
                    requires digits <= u64::MAX, unit_bytes(unit) <= 1125899906842624;
                proof {
                    lemma_scale_bound(decimals);
                }
                assert(local * scale_of(decimals) <= u64::MAX * 10000000000000000000) by (nonlinear_arith)
                    requires local <= u64::MAX, scale_of(decimals) <= 10000000000000000000;
                let low = (digits as u128) * ub;
                let high = (digits as u128 + 1) * ub;
                let l = (local as u128) * sc;
                low <= l && l < high
            },
        }
    }
}

fn unit_bytes_exec(u: SizeUnit) -> (r: u128)
    ensures
        r == unit_bytes(u),
{
    match u {
        SizeUnit::B => 1,
        SizeUnit::K => 1024,
        SizeUnit::M => 1048576,
        SizeUnit::G => 1073741824,
        SizeUnit::T => 1099511627776,
        SizeUnit::P => 1125899906842624,
    }
}

fn scale_exec(d: u8) -> (r: u128)
    requires
        d <= MAX_DECIMALS,
    ensures
        r == scale_of(d),
        r >= 1,
{
    proof {
        lemma_scale_bound(d);
    }
    let mut r: u128 = 1;
    let mut i: u8 = 0;
    while i < d
        invariant
            i <= d <= MAX_DECIMALS,
            r == scale_of(i),
        decreases d - i,
    {
        proof {
            lemma_scale_bound((i + 1) as u8);
            assert(scale_of((i + 1) as u8) == 10 * scale_of(i));
        }
        r = r * 10;
        i = i + 1;
    }
    r
}

/// One entry of a remote directory listing.
#[derive(Clone, Debug)]
pub struct ListItem {
    /// Absolute URL; a directory's ends with `/`.
    pub url: String,
    pub name: String,
    pub type_: FileType,
    pub size: Option<FileSize>,
    /// Modification time as read on the server's wall clock, in seconds from
    /// 1970-01-01 00:00:00 on that clock.
    pub mtime: i64,
    /// Decide freshness by local existence alone.
    pub skip_check: bool,
}

/// A listing entry as plain values.
pub struct ItemView {
    pub url: Seq<char>,
    pub name: Seq<char>,
    pub type_: FileType,
    pub size: Option<FileSize>,
    pub mtime: i64,
    pub skip_check: bool,
}

impl View for ListItem {
    type V = ItemView;

    open spec fn view(&self) -> ItemView {
        ItemView {
            url: self.url@,
            name: self.name@,
            type_: self.type_,
            size: self.size,
            mtime: self.mtime,
            skip_check: self.skip_check,
        }
    }
}

impl ListItem {
    /// A field-by-field copy.
    pub fn duplicate(&self) -> (r: ListItem)
        ensures
            r@ == self@,
    {
        ListItem {
            url: self.url.clone(),
            name: self.name.clone(),
            type_: self.type_,
            size: self.size,
            mtime: self.mtime,
            skip_check: self.skip_check,
        }
    }

    pub open spec fn wf(&self) -> bool {
        match self.size {
            Some(s) => s.wf(),
            None => true,
        }
    }
}

/// What a listing parser returns for one URL.
pub enum ListResult {
    List(Vec<ListItem>),
    Redirect(String),
}

} // verus!
