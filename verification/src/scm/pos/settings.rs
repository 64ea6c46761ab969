//! How the tills of a tenant behave.
//!
//! A blind count hides the expected cash from the cashier until they have
//! counted. The denominations are what the count sheet offers, largest first.
//! An M-Pesa payment needs its confirmation code unless the tenant says
//! otherwise. The rest is the paper that receipts are printed on.

use crate::decimal::{normalized, parsed, plain_text, representable, worth, Decimal, Num};
use crate::error::{refusal, Error, Refusal};
use crate::sort::{arrange, arranged, arranging_sorts, Ordered};
use crate::sums::nums;
use crate::text::{
    cat2, cat3, cat4, cat7, digits, int_text, quote, quoted, show_int, show_nat, texts, trim,
    trimmed,
};
use vstd::prelude::*;

verus! {

/// The settings.
#[derive(Debug)]
pub struct Settings {
    pub blind_count: bool,
    /// Largest first.
    pub denominations: Vec<Decimal>,
    /// An M-Pesa payment must carry its confirmation code.
    pub require_mpesa_reference: bool,
    /// The roll that the tills print to.
    pub receipt_paper_width_mm: i32,
    pub receipt_margin_mm: i32,
    pub receipt_font_size_px: i32,
}

/// What settings say.
pub struct Behaviour {
    pub blind_count: bool,
    pub denominations: Seq<Num>,
    pub require_mpesa_reference: bool,
    pub receipt_paper_width_mm: i32,
    pub receipt_margin_mm: i32,
    pub receipt_font_size_px: i32,
}

impl View for Settings {
    type V = Behaviour;

    open spec fn view(&self) -> Behaviour {
        Behaviour {
            blind_count: self.blind_count,
            denominations: nums(self.denominations@),
            require_mpesa_reference: self.require_mpesa_reference,
            receipt_paper_width_mm: self.receipt_paper_width_mm,
            receipt_margin_mm: self.receipt_margin_mm,
            receipt_font_size_px: self.receipt_font_size_px,
        }
    }
}

/// The notes and coins that a tenant gets until it says otherwise.
pub open spec fn default_denominations() -> Seq<int> {
    seq![1000int, 500, 200, 100, 50, 20, 10, 5, 1]
}

/// The settings that a tenant gets until it says otherwise.
pub open spec fn default_behaviour() -> Behaviour {
    Behaviour {
        blind_count: false,
        denominations: default_denominations().map_values(|n: int| (n, 0nat)),
        require_mpesa_reference: true,
        receipt_paper_width_mm: 80,
        receipt_margin_mm: 4,
        receipt_font_size_px: 12,
    }
}

impl Default for Settings {
    fn default() -> (r: Self)
        ensures
            r@ == default_behaviour(),
    {
        let denominations = vec![
            Decimal::from_int(1000),
            Decimal::from_int(500),
            Decimal::from_int(200),
            Decimal::from_int(100),
            Decimal::from_int(50),
            Decimal::from_int(20),
            Decimal::from_int(10),
            Decimal::from_int(5),
            Decimal::from_int(1),
        ];
        assert(nums(denominations@) =~= default_behaviour().denominations);
        Settings {
            blind_count: false,
            denominations,
            require_mpesa_reference: true,
            receipt_paper_width_mm: 80,
            receipt_margin_mm: 4,
            receipt_font_size_px: 12,
        }
    }
}

// ---------------------------------------------------------------------------
// Stored denominations
// ---------------------------------------------------------------------------

/// A denomination as it was stored: a text, which keeps a decimal coin exact,
/// or something else that is read by how it is written.
#[derive(Debug)]
pub enum StoredDenomination {
    Text(String),
    Written(String),
}

/// What a stored denomination stands for, or why it stands for nothing.
pub open spec fn stored_value(d: StoredDenomination) -> Result<Num, Refusal> {
    match d {
        StoredDenomination::Text(s) => match parsed(s@) {
            Ok(n) => Ok(n),
            Err(e) => Err(
                Refusal::Internal("bad stored denomination "@ + quoted(s@) + ": "@ + e),
            ),
        },
        StoredDenomination::Written(s) => match parsed(s@) {
            Ok(n) => Ok(n),
            Err(e) => Err(Refusal::Internal("bad stored denomination "@ + s@ + ": "@ + e)),
        },
    }
}

/// What the first `n` stored denominations stand for, or the first refusal.
pub open spec fn stored_values_to(list: Seq<StoredDenomination>, n: nat) -> Result<
    Seq<Num>,
    Refusal,
>
    decreases n,
{
    if n == 0 {
        Ok(Seq::empty())
    } else {
        match stored_values_to(list, (n - 1) as nat) {
            Err(r) => Err(r),
            Ok(rest) => match stored_value(list[n - 1]) {
                Err(r) => Err(r),
                Ok(v) => Ok(rest.push(v)),
            },
        }
    }
}

proof fn lemma_stored_stops(list: Seq<StoredDenomination>, i: nat, n: nat)
    requires
        i <= n,
        stored_values_to(list, i) is Err,
    ensures
        stored_values_to(list, n) == stored_values_to(list, i),
    decreases n,
{
    if i < n {
        lemma_stored_stops(list, i, (n - 1) as nat);
    }
}

/// Whether a list is how amounts are stored.
pub open spec fn is_stored(list: Seq<StoredDenomination>, values: Seq<Num>) -> bool {
    &&& list.len() == values.len()
    &&& forall|i: int|
        0 <= i < list.len() ==> is_stored_one(#[trigger] list[i], normalized(values[i]))
}

pub open spec fn is_stored_one(d: StoredDenomination, n: Num) -> bool {
    representable(n) && (d matches StoredDenomination::Text(s) && s@ == plain_text(n))
}

/// Read stored denominations; `None` is a store that holds no list of them.
/// What was stored reads back, each amount without zeros at its end.
pub fn parse_denominations(stored: &Option<Vec<StoredDenomination>>) -> (r: Result<
    Vec<Decimal>,
    Error,
>)
    ensures
        match stored {
            None => refusal(r) == Some(
                Refusal::Internal("pos_settings.denominations is not an array"@),
            ),
            Some(list) => match stored_values_to(list@, list@.len()) {
                Ok(values) => r is Ok && nums(r->Ok_0@) == values,
                Err(why) => refusal(r) == Some(why),
            },
        },
        stored matches Some(list) ==> forall|values: Seq<Num>| #[trigger]
            is_stored(list@, values) ==> r is Ok && nums(r->Ok_0@) == values.map_values(
                |n: Num| normalized(n),
            ),
{
    let list = match stored {
        Some(list) => list,
        None => {
            return Err(Error::Internal("pos_settings.denominations is not an array".to_owned()));
        },
    };
    let mut out: Vec<Decimal> = Vec::new();
    assert(nums(out@) =~= Seq::empty());
    let mut i: usize = 0;
    while i < list.len()
        invariant
            i <= list.len(),
            *stored == Some(*list),
            stored_values_to(list@, i as nat) == Ok::<Seq<Num>, Refusal>(nums(out@)),
            out@.len() == i,
            forall|values: Seq<Num>, k: int|
                0 <= k < i && #[trigger] is_stored(list@, values) ==> (#[trigger] out@[k])@
                    == normalized(values[k]),
        decreases list.len() - i,
    {
        proof {
            if stored_values_to(list@, (i + 1) as nat) is Err {
                lemma_stored_stops(list@, (i + 1) as nat, list@.len());
            }
        }
        assert forall|values: Seq<Num>| #[trigger] is_stored(list@, values) implies is_stored_one(
            list@[i as int],
            normalized(values[i as int]),
        ) by {
            assert(is_stored_one(list@[i as int], normalized(values[i as int])));
        }
        let read = match &list[i] {
            StoredDenomination::Text(s) => match Decimal::parse(s.as_str()) {
                Ok(d) => d,
                Err(e) => {
                    let shown = quote(s.as_str());
                    return Err(
                        Error::Internal(
                            cat4("bad stored denomination ", shown.as_str(), ": ", e.as_str()),
                        ),
                    );
                },
            },
            StoredDenomination::Written(s) => match Decimal::parse(s.as_str()) {
                Ok(d) => d,
                Err(e) => {
                    return Err(
                        Error::Internal(
                            cat4("bad stored denomination ", s.as_str(), ": ", e.as_str()),
                        ),
                    );
                },
            },
        };
        let ghost held = nums(out@);
        out.push(read);
        assert(nums(out@) =~= held.push(read@));
        i = i + 1;
    }
    assert forall|values: Seq<Num>| #[trigger] is_stored(list@, values) implies nums(out@)
        == values.map_values(|n: Num| normalized(n)) by {
        assert forall|k: int| 0 <= k < out@.len() implies nums(out@)[k] == normalized(
            values[k],
        ) by {
            assert(out@[k]@ == normalized(values[k]));
        }
        assert(nums(out@) =~= values.map_values(|n: Num| normalized(n)));
    }
    Ok(out)
}

/// How denominations are stored: as texts, without zeros at their end.
pub open spec fn stored_texts(values: Seq<Num>) -> Seq<Seq<char>> {
    values.map_values(|n: Num| plain_text(normalized(n)))
}

/// Write denominations as they are stored.
pub fn store_denominations(values: &Vec<Decimal>) -> (r: Vec<String>)
    ensures
        texts(r@) == stored_texts(nums(values@)),
{
    let mut out: Vec<String> = Vec::new();
    let mut i: usize = 0;
    while i < values.len()
        invariant
            i <= values.len(),
            out@.len() == i,
            forall|k: int|
                0 <= k < i ==> (#[trigger] out@[k])@ == plain_text(normalized(values@[k]@)),
        decreases values.len() - i,
    {
        out.push(values[i].normalize().text());
        i = i + 1;
    }
    assert(texts(out@) =~= stored_texts(nums(values@)));
    out
}

// ---------------------------------------------------------------------------
// Changing the settings
// ---------------------------------------------------------------------------

/// The settings as a caller asks for them.
#[derive(Debug)]
pub struct UpdateSettingsRequest {
    pub blind_count: bool,
    /// Positive amounts in any order; doubles are dropped.
    pub denominations: Vec<String>,
    pub require_mpesa_reference: bool,
    pub receipt_paper_width_mm: i32,
    pub receipt_margin_mm: i32,
    pub receipt_font_size_px: i32,
}

/// Whether an amount is there already, however it is written.
pub open spec fn has_worth(values: Seq<Num>, n: Num) -> bool {
    exists|i: int| 0 <= i < values.len() && worth(#[trigger] values[i]) == worth(n)
}

/// The denominations among the first `n` texts, each once, or the first
/// refusal.
pub open spec fn asked_to(raw: Seq<String>, n: nat) -> Result<Seq<Num>, Refusal>
    decreases n,
{
    if n == 0 {
        Ok(Seq::empty())
    } else {
        match asked_to(raw, (n - 1) as nat) {
            Err(r) => Err(r),
            Ok(rest) => match parsed(trimmed(raw[n - 1]@)) {
                Err(_) => Err(
                    Refusal::Validation(quoted(raw[n - 1]@) + " is not a denomination"@),
                ),
                Ok(d) => if d.0 <= 0 {
                    Err(Refusal::Validation("a denomination must be a positive amount"@))
                } else if has_worth(rest, d) {
                    Ok(rest)
                } else {
                    Ok(rest.push(d))
                },
            },
        }
    }
}

proof fn lemma_asked_stops(raw: Seq<String>, i: nat, n: nat)
    requires
        i <= n,
        asked_to(raw, i) is Err,
    ensures
        asked_to(raw, n) == asked_to(raw, i),
    decreases n,
{
    if i < n {
        lemma_asked_stops(raw, i, (n - 1) as nat);
    }
}

impl Ordered for Decimal {
    /// The larger amount stands first.
    open spec fn precedes(a: Self, b: Self) -> bool {
        worth(b@) < worth(a@)
    }

    fn goes_before(&self, other: &Self) -> (r: bool) {
        other.less(self)
    }
}

/// Why the paper is refused, where it is: it must be a receipt, and the
/// margins must leave something to print on.
pub open spec fn paper_refusal(req: UpdateSettingsRequest) -> Option<Refusal> {
    if req.receipt_paper_width_mm < 30 || req.receipt_paper_width_mm > 210 {
        Some(Refusal::Validation("receipt paper width must be between 30 and 210 mm"@))
    } else if req.receipt_margin_mm < 0 || req.receipt_margin_mm * 2 >= req.receipt_paper_width_mm {
        Some(Refusal::Validation("receipt margins must fit inside the paper"@))
    } else if req.receipt_font_size_px < 6 || req.receipt_font_size_px > 32 {
        Some(Refusal::Validation("receipt type size must be between 6 and 32 px"@))
    } else {
        None
    }
}

/// Why settings are refused, where they are.
pub open spec fn settings_refusal(req: UpdateSettingsRequest) -> Option<Refusal> {
    match asked_to(req.denominations@, req.denominations@.len()) {
        Err(r) => Some(r),
        Ok(_) => paper_refusal(req),
    }
}

fn holds_worth(values: &Vec<Decimal>, d: Decimal) -> (r: bool)
    ensures
        r == has_worth(nums(values@), d@),
{
    let ghost all = nums(values@);
    let mut i: usize = 0;
    while i < values.len()
        invariant
            i <= values.len(),
            all == nums(values@),
            forall|k: int| 0 <= k < i ==> worth(#[trigger] all[k]) != worth(d@),
        decreases values.len() - i,
    {
        if values[i].equals(&d) {
            assert(worth(all[i as int]) == worth(d@));
            return true;
        }
        i = i + 1;
    }
    false
}

fn read_asked(raw: &Vec<String>) -> (r: Result<Vec<Decimal>, Error>)
    ensures
        match asked_to(raw@, raw@.len()) {
            Ok(values) => r is Ok && nums(r->Ok_0@) == values,
            Err(why) => refusal(r) == Some(why),
        },
{
    let mut out: Vec<Decimal> = Vec::new();
    assert(nums(out@) =~= Seq::empty());
    let mut i: usize = 0;
    while i < raw.len()
        invariant
            i <= raw.len(),
            asked_to(raw@, i as nat) == Ok::<Seq<Num>, Refusal>(nums(out@)),
        decreases raw.len() - i,
    {
        proof {
            if asked_to(raw@, (i + 1) as nat) is Err {
                lemma_asked_stops(raw@, (i + 1) as nat, raw@.len());
            }
        }
        let text = trim(raw[i].as_str());
        let d = match Decimal::parse(text.as_str()) {
            Ok(d) => d,
            Err(_) => {
                let shown = quote(raw[i].as_str());
                return Err(Error::Validation(cat2(shown.as_str(), " is not a denomination")));
            },
        };
        if !d.is_positive() {
            return Err(
                Error::Validation("a denomination must be a positive amount".to_owned()),
            );
        }
        if !holds_worth(&out, d) {
            let ghost held = nums(out@);
            out.push(d);
            assert(nums(out@) =~= held.push(d@));
        }
        i = i + 1;
    }
    Ok(out)
}

fn check_paper(req: &UpdateSettingsRequest) -> (r: Result<(), Error>)
    ensures
        refusal(r) == paper_refusal(*req),
{
    if req.receipt_paper_width_mm < 30 || req.receipt_paper_width_mm > 210 {
        return Err(
            Error::Validation("receipt paper width must be between 30 and 210 mm".to_owned()),
        );
    }
    if req.receipt_margin_mm < 0 || req.receipt_margin_mm >= 105 || req.receipt_margin_mm * 2
        >= req.receipt_paper_width_mm {
        return Err(Error::Validation("receipt margins must fit inside the paper".to_owned()));
    }
    if req.receipt_font_size_px < 6 || req.receipt_font_size_px > 32 {
        return Err(
            Error::Validation("receipt type size must be between 6 and 32 px".to_owned()),
        );
    }
    Ok(())
}

/// The settings that a caller asks for: the denominations sorted, each once.
pub fn update_settings(req: UpdateSettingsRequest) -> (r: Result<Settings, Error>)
    ensures
        refusal(r) == settings_refusal(req),
        r matches Ok(s) ==> {
            &&& s.blind_count == req.blind_count
            &&& s.require_mpesa_reference == req.require_mpesa_reference
            &&& s.receipt_paper_width_mm == req.receipt_paper_width_mm
            &&& s.receipt_margin_mm == req.receipt_margin_mm
            &&& s.receipt_font_size_px == req.receipt_font_size_px
            &&& exists|asked: Seq<Decimal>|
                s.denominations@ == #[trigger] arranged(asked) && asked_to(
                    req.denominations@,
                    req.denominations@.len(),
                ) == Ok::<Seq<Num>, Refusal>(nums(asked))
        },
{
    let asked = read_asked(&req.denominations)?;
    check_paper(&req)?;
    let ghost list = asked@;
    let denominations = arrange(asked);
    assert(denominations@ == arranged(list));
    Ok(
        Settings {
            blind_count: req.blind_count,
            denominations,
            require_mpesa_reference: req.require_mpesa_reference,
            receipt_paper_width_mm: req.receipt_paper_width_mm,
            receipt_margin_mm: req.receipt_margin_mm,
            receipt_font_size_px: req.receipt_font_size_px,
        },
    )
}

/// What the audit trail says of new settings.
pub open spec fn settings_text(s: Behaviour) -> Seq<char> {
    let count = if s.blind_count {
        "on"@
    } else {
        "off"@
    };
    let code = if s.require_mpesa_reference {
        "required"@
    } else {
        "optional"@
    };
    "updated POS settings: blind count "@ + count + ", "@ + digits(s.denominations.len())
        + " denominations, M-Pesa code "@ + code + ", "@ + int_text(
        s.receipt_paper_width_mm as int,
    ) + "mm paper"@
}

/// What the audit trail says of new settings.
pub fn settings_event(s: &Settings) -> (r: String)
    ensures
        r@ == settings_text(s@),
{
    let count = if s.blind_count {
        "on"
    } else {
        "off"
    };
    let code = if s.require_mpesa_reference {
        "required"
    } else {
        "optional"
    };
    let many = show_nat(s.denominations.len() as u64);
    let width = show_int(s.receipt_paper_width_mm as i64);
    let head = cat7(
        "updated POS settings: blind count ",
        count,
        ", ",
        many.as_str(),
        " denominations, M-Pesa code ",
        code,
        ", ",
    );
    cat3(head.as_str(), width.as_str(), "mm paper")
}

// ---------------------------------------------------------------------------
// Laws
// ---------------------------------------------------------------------------

/// Whether amounts are positive, and no two of them worth the same.
pub open spec fn are_denominations(values: Seq<Num>) -> bool {
    &&& forall|i: int| 0 <= i < values.len() ==> (#[trigger] values[i]).0 > 0
    &&& forall|i: int, j: int|
        0 <= i < j < values.len() ==> worth(#[trigger] values[i]) != worth(#[trigger] values[j])
}

/// Accepted denominations are positive, and each is there once.
pub proof fn denominations_are_distinct(raw: Seq<String>, n: nat)
    requires
        asked_to(raw, n) is Ok,
    ensures
        are_denominations(asked_to(raw, n)->Ok_0),
    decreases n,
{
    if n > 0 {
        denominations_are_distinct(raw, (n - 1) as nat);
        let rest = asked_to(raw, (n - 1) as nat)->Ok_0;
        let all = asked_to(raw, n)->Ok_0;
        if all != rest {
            let d = all[rest.len() as int];
            assert(!has_worth(rest, d));
            assert forall|i: int, j: int| 0 <= i < j < all.len() implies worth(#[trigger] all[i])
                != worth(#[trigger] all[j]) by {
                assert(all[i] == rest[i]);
                if j < rest.len() {
                    assert(all[j] == rest[j]);
                }
            }
        }
    }
}

/// The count sheet lists the largest denomination first.
pub proof fn the_largest_comes_first(asked: Seq<Decimal>)
    ensures
        forall|i: int, j: int|
            0 <= i < j < arranged(asked).len() ==> worth(#[trigger] arranged(asked)[j]@) <= worth(
                #[trigger] arranged(asked)[i]@,
            ),
{
    assert(crate::sort::ranks::<Decimal>());
    arranging_sorts(asked);
}

} // verus!
