//! The register: every claim, its suite and its tier, and what is cited rather
//! than constructed.
//!
//! A claim stands at exactly one level of honesty. One that is reproduced from
//! an authority names it, and an error a caller may see names the claim under
//! which it is sanctioned.
use vstd::prelude::*;

use crate::model::SPEC;
use crate::named::{find_row, row, Named};
use crate::text::{chars_of, same, split_once, trim};
use crate::text::{halves, trimmed};

verus! {

/// How far a claim is established.
#[derive(Debug, Clone, Copy, PartialEq, Eq, Structural)]
pub enum Level {
    /// Reproduced from an authority; not established here.
    SomeTrue,
    /// Constructed here and validated against its oracle.
    Build,
    /// Measured and reported, never asserted.
    Open,
}

/// Where a claim is discharged.
#[derive(Debug, Clone, Copy, PartialEq, Eq, Structural)]
pub enum Tier {
    /// By the repository's own gate.
    T0,
    /// In one guest.
    T1,
    /// In a fleet of guests.
    T2,
    /// On the real machines.
    T3,
}

impl Tier {
    /// The tier's name.
    pub open spec fn name(self) -> Seq<char> {
        match self {
            Tier::T0 => "T0"@,
            Tier::T1 => "T1"@,
            Tier::T2 => "T2"@,
            Tier::T3 => "T3"@,
        }
    }

    /// The tier's name.
    pub fn as_str(self) -> (r: &'static str)
        ensures
            r@ == self.name(),
    {
        match self {
            Tier::T0 => "T0",
            Tier::T1 => "T1",
            Tier::T2 => "T2",
            Tier::T3 => "T3",
        }
    }
}

/// One claim of the ledger.
#[derive(Debug)]
pub struct Claim {
    /// The claim's ID.
    pub id: String,
    /// How far it is established.
    pub level: Level,
    /// What it is reproduced from, where it is.
    pub authority: Option<String>,
}

/// One row per claim.
#[derive(Debug)]
pub struct Ledger {
    /// The schema tag.
    pub spec: String,
    /// The claims.
    pub claim: Vec<Claim>,
}

/// One registered ID.
#[derive(Debug)]
pub struct IdRow {
    /// Two letters, a hyphen and two digits.
    pub id: String,
    /// What is claimed.
    pub statement: String,
    /// The suite its scenario lives in.
    pub suite: String,
    /// Where it is discharged.
    pub tier: Tier,
}

/// An error a caller may see.
#[derive(Debug)]
pub struct SanctionedError {
    /// The error's name.
    pub name: String,
    /// The claim under which it is an outcome.
    pub sanctioned_by: String,
    /// The condition it reports.
    pub statement: String,
}

/// The register of IDs.
#[derive(Debug)]
pub struct Ids {
    /// The schema tag.
    pub spec: String,
    /// The IDs.
    pub id: Vec<IdRow>,
    /// The errors that are sanctioned.
    pub error: Vec<SanctionedError>,
}

/// What is cited.
#[derive(Debug)]
pub struct AuthorityRow {
    /// Stable identifier.
    pub id: String,
    /// The citation.
    pub citation: String,
    /// What its bytes hash to, or `none`.
    pub checksum: String,
    /// Why there is no checksum, where there is none.
    pub checksum_reason: String,
    /// The IDs that realize it.
    pub realized_by: Vec<String>,
}

/// What is cited rather than proved.
#[derive(Debug)]
pub struct Authorities {
    /// The schema tag.
    pub spec: String,
    /// The authorities.
    pub authority: Vec<AuthorityRow>,
}

/// Everything the registers say.
#[derive(Debug)]
pub struct Model {
    /// One row per claim, at exactly one level.
    pub ledger: Ledger,
    /// The register of IDs.
    pub ids: Ids,
    /// What is cited.
    pub authorities: Authorities,
}

/// A failure to load or to cross-check the registers.
#[derive(Debug)]
pub enum ModelError {
    /// A file could not be read: its path, and why.
    Io(String, String),
    /// A file could not be parsed: its path, and why.
    Parse(String, String),
    /// The registers disagree with themselves.
    Inconsistent(String),
}

impl ModelError {
    /// What the error says.
    pub open spec fn text_spec(&self) -> Seq<char> {
        match self {
            ModelError::Io(path, why) => "reading "@ + path@ + ": "@ + why@,
            ModelError::Parse(path, why) => "parsing "@ + path@ + ": "@ + why@,
            ModelError::Inconsistent(m) => "model is inconsistent: "@ + m@,
        }
    }

    /// What the error says.
    pub fn to_text(&self) -> (r: String)
        ensures
            r@ == self.text_spec(),
    {
        match self {
            ModelError::Io(path, why) => "reading ".to_owned().concat(path.as_str()).concat(
                ": ",
            ).concat(why.as_str()),
            ModelError::Parse(path, why) => "parsing ".to_owned().concat(path.as_str()).concat(
                ": ",
            ).concat(why.as_str()),
            ModelError::Inconsistent(m) => "model is inconsistent: ".to_owned().concat(m.as_str()),
        }
    }
}

fn bad(m: String) -> (r: ModelError)
    ensures
        r == ModelError::Inconsistent(m),
{
    ModelError::Inconsistent(m)
}

/// Whether a check reports the fault there is: success where there is none, and
/// its text where there is one.
pub open spec fn reports(r: Result<(), ModelError>, fault: Option<Seq<char>>) -> bool {
    match r {
        Ok(_) => fault is None,
        Err(ModelError::Inconsistent(m)) => fault == Some(m@),
        Err(_) => false,
    }
}

impl Named for IdRow {
    open spec fn key(&self) -> Seq<char> {
        self.id@
    }

    fn name_of(&self) -> (r: &str) {
        self.id.as_str()
    }
}

impl Named for AuthorityRow {
    open spec fn key(&self) -> Seq<char> {
        self.id@
    }

    fn name_of(&self) -> (r: &str) {
        self.id.as_str()
    }
}

impl Ids {
    /// The row of an ID.
    pub fn get(&self, id: &str) -> (r: Option<&IdRow>)
        ensures
            match r {
                Some(found) => row(self.id@, id@) == Some(*found),
                None => row(self.id@, id@) is None,
            },
    {
        find_row(&self.id, id)
    }
}

// ---- the shape of an ID ----

/// Whether a character is a letter from `A` to `Z`.
pub open spec fn upper(c: char) -> bool {
    65 <= c as int <= 90
}

/// Whether a character is a decimal digit.
pub open spec fn figure(c: char) -> bool {
    48 <= c as int <= 57
}

/// The class of an ID: the two letters before a hyphen and two digits.
pub open spec fn class_spec(id: Seq<char>) -> Option<Seq<char>> {
    match halves(id, "-"@) {
        Some((class, number)) => if class.len() == 2 && upper(class[0]) && upper(class[1])
            && number.len() == 2 && figure(number[0]) && figure(number[1]) {
            Some(class)
        } else {
            None
        },
        None => None,
    }
}

fn is_upper(c: char) -> (r: bool)
    ensures
        r == upper(c),
{
    'A' <= c && c <= 'Z'
}

fn is_figure(c: char) -> (r: bool)
    ensures
        r == figure(c),
{
    '0' <= c && c <= '9'
}

/// The two-letter class of an ID, or `None` when it is not shaped like one.
///
/// The classes themselves are read off the register, never listed here.
pub fn class_of(id: &str) -> (r: Option<String>)
    ensures
        match r {
            Some(class) => class_spec(id@) == Some(class@),
            None => class_spec(id@) is None,
        },
{
    match split_once(id, "-") {
        Some(h) => {
            let (class, number) = h;
            let letters = chars_of(class.as_str());
            let digits = chars_of(number.as_str());
            if letters.len() == 2 && is_upper(letters[0]) && is_upper(letters[1]) && digits.len()
                == 2 && is_figure(digits[0]) && is_figure(digits[1]) {
                Some(class)
            } else {
                None
            }
        },
        None => None,
    }
}

/// Whether two optional texts are the same.
fn same_class(a: &Option<String>, b: &Option<String>) -> (r: bool)
    ensures
        r == match (*a, *b) {
            (Some(x), Some(y)) => x@ == y@,
            (None, None) => true,
            _ => false,
        },
{
    match (a, b) {
        (Some(x), Some(y)) => same(x.as_str(), y.as_str()),
        (None, None) => true,
        _ => false,
    }
}

/// Whether a text says nothing.
pub open spec fn blank(s: Seq<char>) -> bool {
    trimmed(s).len() == 0
}

fn is_blank(s: &str) -> (r: bool)
    ensures
        r == blank(s@),
{
    trim(s).as_str().is_empty()
}

// ---- faults ----

/// What a file with another schema tag is told.
pub open spec fn tag_fault(name: Seq<char>, spec: Seq<char>) -> Option<Seq<char>> {
    if spec != SPEC@ {
        Some(
            "model/"@
                + name
                + ": spec is `"@
                + spec
                + "`, but this build understands `"@
                + SPEC@
                + "` (R1)"@,
        )
    } else {
        None
    }
}

fn check_tag(name: &str, spec: &str) -> (r: Result<(), ModelError>)
    ensures
        reports(r, tag_fault(name@, spec@)),
{
    if !same(spec, SPEC) {
        return Err(
            bad(
                "model/".to_owned()
                    .concat(name)
                    .concat(": spec is `")
                    .concat(spec)
                    .concat("`, but this build understands `")
                    .concat(SPEC)
                    .concat("` (R1)"),
            ),
        );
    }
    Ok(())
}

/// What is wrong with the ID at `i`: it is registered once, states something,
/// names a suite, and has the shape of an ID.
pub open spec fn id_fault(rows: Seq<IdRow>, i: int) -> Option<Seq<char>> {
    let row = rows[i];
    if exists|k: int| 0 <= k < i && (#[trigger] rows[k]).id@ == row.id@ {
        Some(
            row.id@
                + ": registered twice"@,
        )
    } else if blank(row.statement@) {
        Some(
            row.id@
                + ": an untagged claim does not ship (R2)"@,
        )
    } else if blank(row.suite@) {
        Some(
            row.id@
                + ": every ID names the Gherkin suite its scenario lives in (R3)"@,
        )
    } else if class_spec(row.id@) is None {
        Some(
            row.id@
                + ": an ID is two letters, a hyphen and two digits (§19.2)"@,
        )
    } else {
        None
    }
}

/// The first fault of an ID from `i` on.
pub open spec fn ids_fault(rows: Seq<IdRow>, i: int) -> Option<Seq<char>>
    decreases rows.len() - i,
{
    if i < 0 || i >= rows.len() {
        None
    } else {
        match id_fault(rows, i) {
            Some(why) => Some(why),
            None => ids_fault(rows, i + 1),
        }
    }
}

fn is_registered_before(rows: &Vec<IdRow>, i: usize) -> (r: bool)
    requires
        i < rows.len(),
    ensures
        r == (exists|k: int| 0 <= k < i && (#[trigger] rows@[k]).id@ == rows@[i as int].id@),
{
    let mut k: usize = 0;
    while k < i
        invariant
            k <= i < rows.len(),
            forall|j: int| 0 <= j < k ==> (#[trigger] rows@[j]).id@ != rows@[i as int].id@,
        decreases i - k,
    {
        if same(rows[k].id.as_str(), rows[i].id.as_str()) {
            return true;
        }
        k = k + 1;
    }
    false
}

fn check_rows(rows: &Vec<IdRow>) -> (r: Result<(), ModelError>)
    ensures
        reports(r, ids_fault(rows@, 0)),
{
    let mut i: usize = 0;
    while i < rows.len()
        invariant
            i <= rows.len(),
            ids_fault(rows@, 0) == ids_fault(rows@, i as int),
        decreases rows.len() - i,
    {
        let row = &rows[i];
        if is_registered_before(rows, i) {
            return Err(
                bad(
                    row.id.clone()
                        .concat(": registered twice"),
                ),
            );
        }
        if is_blank(row.statement.as_str()) {
            return Err(
                bad(
                    row.id.clone()
                        .concat(": an untagged claim does not ship (R2)"),
                ),
            );
        }
        if is_blank(row.suite.as_str()) {
            return Err(
                bad(
                    row.id.clone()
                        .concat(": every ID names the Gherkin suite its scenario lives in (R3)"),
                ),
            );
        }
        if class_of(row.id.as_str()).is_none() {
            return Err(
                bad(
                    row.id.clone()
                        .concat(": an ID is two letters, a hyphen and two digits (§19.2)"),
                ),
            );
        }
        i = i + 1;
    }
    Ok(())
}

/// Whether two IDs of one class are in two suites.
pub open spec fn clash(a: IdRow, b: IdRow) -> bool {
    class_spec(a.id@) == class_spec(b.id@) && a.suite@ != b.suite@
}

/// The first ID from `k` on that is in the class of another and not in its
/// suite.
pub open spec fn clash_from(rows: Seq<IdRow>, row: IdRow, k: int) -> Option<IdRow>
    decreases rows.len() - k,
{
    if k < 0 || k >= rows.len() {
        None
    } else if clash(rows[k], row) {
        Some(rows[k])
    } else {
        clash_from(rows, row, k + 1)
    }
}

/// What an ID whose class spans two suites is told.
pub open spec fn class_fault(rows: Seq<IdRow>, i: int) -> Option<Seq<char>> {
    let row = rows[i];
    match clash_from(rows, row, 0) {
        Some(other) => Some(
            row.id@
                + " is in suite `"@
                + row.suite@
                + "` but "@
                + other.id@
                + " --- the same class --- is in `"@
                + other.suite@
                + "`. A class maps to one suite (§19.2)"@,
        ),
        None => None,
    }
}

/// The first ID from `i` on whose class spans two suites.
pub open spec fn classes_fault(rows: Seq<IdRow>, i: int) -> Option<Seq<char>>
    decreases rows.len() - i,
{
    if i < 0 || i >= rows.len() {
        None
    } else {
        match class_fault(rows, i) {
            Some(why) => Some(why),
            None => classes_fault(rows, i + 1),
        }
    }
}

fn find_clash<'a>(rows: &'a Vec<IdRow>, row: &IdRow) -> (r: Option<&'a IdRow>)
    ensures
        match r {
            Some(other) => clash_from(rows@, *row, 0) == Some(*other),
            None => clash_from(rows@, *row, 0) is None,
        },
{
    let class = class_of(row.id.as_str());
    let mut k: usize = 0;
    while k < rows.len()
        invariant
            k <= rows.len(),
            match class {
                Some(c) => class_spec(row.id@) == Some(c@),
                None => class_spec(row.id@) is None,
            },
            clash_from(rows@, *row, 0) == clash_from(rows@, *row, k as int),
        decreases rows.len() - k,
    {
        let other = class_of(rows[k].id.as_str());
        if same_class(&other, &class) && !same(rows[k].suite.as_str(), row.suite.as_str()) {
            return Some(&rows[k]);
        }
        k = k + 1;
    }
    None
}

fn check_classes(rows: &Vec<IdRow>) -> (r: Result<(), ModelError>)
    ensures
        reports(r, classes_fault(rows@, 0)),
{
    let mut i: usize = 0;
    while i < rows.len()
        invariant
            i <= rows.len(),
            classes_fault(rows@, 0) == classes_fault(rows@, i as int),
        decreases rows.len() - i,
    {
        let row = &rows[i];
        if let Some(other) = find_clash(rows, row) {
            return Err(
                bad(
                    row.id.clone()
                        .concat(" is in suite `")
                        .concat(row.suite.as_str())
                        .concat("` but ")
                        .concat(other.id.as_str())
                        .concat(" --- the same class --- is in `")
                        .concat(other.suite.as_str())
                        .concat("`. A class maps to one suite (§19.2)"),
                ),
            );
        }
        i = i + 1;
    }
    Ok(())
}

/// What a hardware claim discharged elsewhere than on hardware is told.
pub open spec fn hardware_fault(row: IdRow) -> Option<Seq<char>> {
    if class_spec(row.id@) == Some("CH"@) && row.tier != Tier::T3 {
        Some(
            row.id@
                + ": a hardware claim is tier "@
                + Tier::T3.name()
                + " but is registered at "@
                + row.tier.name()
                + ". Only real nodes can discharge one (§19.2, §21.2)"@,
        )
    } else {
        None
    }
}

/// The first hardware claim from `i` on discharged elsewhere than on hardware.
pub open spec fn hardwares_fault(rows: Seq<IdRow>, i: int) -> Option<Seq<char>>
    decreases rows.len() - i,
{
    if i < 0 || i >= rows.len() {
        None
    } else {
        match hardware_fault(rows[i]) {
            Some(why) => Some(why),
            None => hardwares_fault(rows, i + 1),
        }
    }
}

fn check_hardware(rows: &Vec<IdRow>) -> (r: Result<(), ModelError>)
    ensures
        reports(r, hardwares_fault(rows@, 0)),
{
    let mut i: usize = 0;
    while i < rows.len()
        invariant
            i <= rows.len(),
            hardwares_fault(rows@, 0) == hardwares_fault(rows@, i as int),
        decreases rows.len() - i,
    {
        let row = &rows[i];
        if let Some(class) = class_of(row.id.as_str()) {
            if same(class.as_str(), "CH") && row.tier != Tier::T3 {
                return Err(
                    bad(
                        row.id.clone()
                            .concat(": a hardware claim is tier ")
                            .concat(Tier::T3.as_str())
                            .concat(" but is registered at ")
                            .concat(row.tier.as_str())
                            .concat(". Only real nodes can discharge one (§19.2, §21.2)"),
                    ),
                );
            }
        }
        i = i + 1;
    }
    Ok(())
}

/// What is wrong with a sanctioned error: it names a registered ID and states a
/// condition.
pub open spec fn error_fault(ids: Seq<IdRow>, e: SanctionedError) -> Option<Seq<char>> {
    if row(ids, e.sanctioned_by@) is None {
        Some(
            e.name@
                + ": sanctioned_by names `"@
                + e.sanctioned_by@
                + "`, which is not a registered ID (R5)"@,
        )
    } else if blank(e.statement@) {
        Some(
            e.name@
                + ": a sanctioned error states the condition it reports (R5)"@,
        )
    } else {
        None
    }
}

/// The first fault of a sanctioned error from `i` on.
pub open spec fn errors_fault(ids: Seq<IdRow>, errors: Seq<SanctionedError>, i: int) -> Option<Seq<char>>
    decreases errors.len() - i,
{
    if i < 0 || i >= errors.len() {
        None
    } else {
        match error_fault(ids, errors[i]) {
            Some(why) => Some(why),
            None => errors_fault(ids, errors, i + 1),
        }
    }
}

/// The first ID from `i` on that an authority is realized by and nobody
/// registered.
pub open spec fn realized_fault(ids: Seq<IdRow>, a: AuthorityRow, i: int) -> Option<Seq<char>>
    decreases a.realized_by@.len() - i,
{
    if i < 0 || i >= a.realized_by@.len() {
        None
    } else {
        let id = a.realized_by@[i];
        if row(ids, id@) is None {
            Some(
                a.id@
                    + ": realized_by names unknown ID "@
                    + id@,
            )
        } else {
            realized_fault(ids, a, i + 1)
        }
    }
}

/// What is wrong with an authority: it is cited, a missing checksum is a stated
/// fact, and it names registered IDs.
pub open spec fn authority_fault(ids: Seq<IdRow>, a: AuthorityRow) -> Option<Seq<char>> {
    if blank(a.citation@) {
        Some(
            a.id@
                + ": an authority with no citation"@,
        )
    } else if a.checksum@ == "none"@ && blank(a.checksum_reason@) {
        Some(
            a.id@
                + ": no checksum and no reason. A missing checksum must be a stated fact, not an omission (R6)"@,
        )
    } else {
        realized_fault(ids, a, 0)
    }
}

/// The first fault of an authority from `i` on.
pub open spec fn authorities_fault(ids: Seq<IdRow>, list: Seq<AuthorityRow>, i: int) -> Option<Seq<char>>
    decreases list.len() - i,
{
    if i < 0 || i >= list.len() {
        None
    } else {
        match authority_fault(ids, list[i]) {
            Some(why) => Some(why),
            None => authorities_fault(ids, list, i + 1),
        }
    }
}

/// What is wrong with a claim: one that is reproduced names an authority there
/// is.
pub open spec fn claim_fault(authorities: Seq<AuthorityRow>, c: Claim) -> Option<Seq<char>> {
    if c.level != Level::SomeTrue {
        None
    } else {
        match c.authority {
            None => Some(
                c.id@
                    + ": a some-true claim must name an authority"@,
            ),
            Some(name) => if row(authorities, name@) is None {
                Some(
                    c.id@
                        + ": cites "@
                        + name@
                        + ", which has no row in model/authorities.toml (CM-03)"@,
                )
            } else {
                None
            },
        }
    }
}

/// The first fault of a claim from `i` on.
pub open spec fn claims_fault(authorities: Seq<AuthorityRow>, claims: Seq<Claim>, i: int) -> Option<Seq<char>>
    decreases claims.len() - i,
{
    if i < 0 || i >= claims.len() {
        None
    } else {
        match claim_fault(authorities, claims[i]) {
            Some(why) => Some(why),
            None => claims_fault(authorities, claims, i + 1),
        }
    }
}

impl Model {
    /// What is wrong with the schema tags.
    pub open spec fn spec_fault(&self) -> Option<Seq<char>> {
        match tag_fault("ledger.toml"@, self.ledger.spec@) {
            Some(why) => Some(why),
            None => match tag_fault("ids.toml"@, self.ids.spec@) {
                Some(why) => Some(why),
                None => tag_fault("authorities.toml"@, self.authorities.spec@),
            },
        }
    }

    /// What is wrong with the register of IDs: the first of its rules that
    /// fails.
    pub open spec fn register_fault(&self) -> Option<Seq<char>> {
        if let Some(why) = ids_fault(self.ids.id@, 0) {
            Some(why)
        } else if let Some(why) = classes_fault(self.ids.id@, 0) {
            Some(why)
        } else if let Some(why) = hardwares_fault(self.ids.id@, 0) {
            Some(why)
        } else {
            errors_fault(self.ids.id@, self.ids.error@, 0)
        }
    }

    /// What is wrong with what is cited.
    pub open spec fn citation_fault(&self) -> Option<Seq<char>> {
        match authorities_fault(self.ids.id@, self.authorities.authority@, 0) {
            Some(why) => Some(why),
            None => claims_fault(self.authorities.authority@, self.ledger.claim@, 0),
        }
    }

    /// What is wrong with the registers: the first of their rules that fails.
    pub open spec fn fault(&self) -> Option<Seq<char>> {
        if let Some(why) = self.spec_fault() {
            Some(why)
        } else if let Some(why) = self.register_fault() {
            Some(why)
        } else {
            self.citation_fault()
        }
    }

    /// Cross-check the registers: every ID well formed, every sanctioned error
    /// and every authority bound to IDs that exist, and every reproduced claim
    /// to an authority that exists.
    pub fn check(&self) -> (r: Result<(), ModelError>)
        ensures
            reports(r, self.fault()),
    {
        self.check_spec()?;
        self.check_ids()?;
        self.check_authorities()
    }

    /// Every file carries the tag this build understands.
    fn check_spec(&self) -> (r: Result<(), ModelError>)
        ensures
            reports(r, self.spec_fault()),
    {
        check_tag("ledger.toml", self.ledger.spec.as_str())?;
        check_tag("ids.toml", self.ids.spec.as_str())?;
        check_tag("authorities.toml", self.authorities.spec.as_str())
    }

    /// Every registered ID is well formed, every class lives in one suite, and a
    /// hardware claim is discharged on hardware.
    fn check_ids(&self) -> (r: Result<(), ModelError>)
        ensures
            reports(r, self.register_fault()),
    {
        check_rows(&self.ids.id)?;
        check_classes(&self.ids.id)?;
        check_hardware(&self.ids.id)?;
        self.check_errors()
    }

    /// Every sanctioned error names the claim under which it is an outcome.
    fn check_errors(&self) -> (r: Result<(), ModelError>)
        ensures
            reports(r, errors_fault(self.ids.id@, self.ids.error@, 0)),
    {
        let errors = &self.ids.error;
        let mut i: usize = 0;
        while i < errors.len()
            invariant
                i <= errors.len(),
                errors@ == self.ids.error@,
                errors_fault(self.ids.id@, errors@, 0) == errors_fault(
                    self.ids.id@,
                    errors@,
                    i as int,
                ),
            decreases errors.len() - i,
        {
            let e = &errors[i];
            if self.ids.get(e.sanctioned_by.as_str()).is_none() {
                return Err(
                    bad(
                        e.name.clone()
                            .concat(": sanctioned_by names `")
                            .concat(e.sanctioned_by.as_str())
                            .concat("`, which is not a registered ID (R5)"),
                    ),
                );
            }
            if is_blank(e.statement.as_str()) {
                return Err(
                    bad(
                        e.name.clone()
                            .concat(": a sanctioned error states the condition it reports (R5)"),
                    ),
                );
            }
            i = i + 1;
        }
        Ok(())
    }

    fn check_realized(&self, a: &AuthorityRow) -> (r: Result<(), ModelError>)
        ensures
            reports(r, realized_fault(self.ids.id@, *a, 0)),
    {
        let mut i: usize = 0;
        while i < a.realized_by.len()
            invariant
                i <= a.realized_by.len(),
                realized_fault(self.ids.id@, *a, 0) == realized_fault(self.ids.id@, *a, i as int),
            decreases a.realized_by.len() - i,
        {
            let id = &a.realized_by[i];
            if self.ids.get(id.as_str()).is_none() {
                return Err(
                    bad(
                        a.id.clone()
                            .concat(": realized_by names unknown ID ")
                            .concat(id.as_str()),
                    ),
                );
            }
            i = i + 1;
        }
        Ok(())
    }

    fn check_cited(&self) -> (r: Result<(), ModelError>)
        ensures
            reports(r, authorities_fault(self.ids.id@, self.authorities.authority@, 0)),
    {
        let list = &self.authorities.authority;
        let mut i: usize = 0;
        while i < list.len()
            invariant
                i <= list.len(),
                list@ == self.authorities.authority@,
                authorities_fault(self.ids.id@, list@, 0) == authorities_fault(
                    self.ids.id@,
                    list@,
                    i as int,
                ),
            decreases list.len() - i,
        {
            let a = &list[i];
            if is_blank(a.citation.as_str()) {
                return Err(
                    bad(
                        a.id.clone()
                            .concat(": an authority with no citation"),
                    ),
                );
            }
            if same(a.checksum.as_str(), "none") && is_blank(a.checksum_reason.as_str()) {
                return Err(
                    bad(
                        a.id.clone()
                            .concat(": no checksum and no reason. A missing checksum must be a stated fact, not an omission (R6)"),
                    ),
                );
            }
            self.check_realized(a)?;
            i = i + 1;
        }
        Ok(())
    }

    /// Every authority is cited and names IDs that exist, and every reproduced
    /// claim names an authority that exists.
    fn check_authorities(&self) -> (r: Result<(), ModelError>)
        ensures
            reports(r, self.citation_fault()),
    {
        self.check_cited()?;
        let claims = &self.ledger.claim;
        let mut i: usize = 0;
        while i < claims.len()
            invariant
                i <= claims.len(),
                claims@ == self.ledger.claim@,
                authorities_fault(self.ids.id@, self.authorities.authority@, 0) is None,
                claims_fault(self.authorities.authority@, claims@, 0) == claims_fault(
                    self.authorities.authority@,
                    claims@,
                    i as int,
                ),
            decreases claims.len() - i,
        {
            let c = &claims[i];
            if c.level == Level::SomeTrue {
                match &c.authority {
                    None => {
                        return Err(
                            bad(
                                c.id.clone()
                                    .concat(": a some-true claim must name an authority"),
                            ),
                        );
                    },
                    Some(name) => {
                        if find_row(&self.authorities.authority, name.as_str()).is_none() {
                            return Err(
                                bad(
                                    c.id.clone()
                                        .concat(": cites ")
                                        .concat(name.as_str())
                                        .concat(", which has no row in model/authorities.toml (CM-03)"),
                                ),
                            );
                        }
                    },
                }
            }
            i = i + 1;
        }
        Ok(())
    }
}

// ---- what a checked register guarantees ----

proof fn lemma_ids(rows: Seq<IdRow>, i: int)
    requires
        0 <= i,
        ids_fault(rows, i) is None,
    ensures
        forall|k: int| i <= k < rows.len() ==> id_fault(rows, k) is None,
    decreases rows.len() - i,
{
    if i < rows.len() {
        lemma_ids(rows, i + 1);
    }
}

proof fn lemma_classes(rows: Seq<IdRow>, i: int)
    requires
        0 <= i,
        classes_fault(rows, i) is None,
    ensures
        forall|k: int| i <= k < rows.len() ==> class_fault(rows, k) is None,
    decreases rows.len() - i,
{
    if i < rows.len() {
        lemma_classes(rows, i + 1);
    }
}

proof fn lemma_clash(rows: Seq<IdRow>, row: IdRow, k: int)
    requires
        0 <= k,
        clash_from(rows, row, k) is None,
    ensures
        forall|j: int| k <= j < rows.len() ==> !clash(#[trigger] rows[j], row),
    decreases rows.len() - k,
{
    if k < rows.len() {
        lemma_clash(rows, row, k + 1);
    }
}

proof fn lemma_hardware(rows: Seq<IdRow>, i: int)
    requires
        0 <= i,
        hardwares_fault(rows, i) is None,
    ensures
        forall|k: int| i <= k < rows.len() ==> hardware_fault(#[trigger] rows[k]) is None,
    decreases rows.len() - i,
{
    if i < rows.len() {
        lemma_hardware(rows, i + 1);
    }
}

proof fn lemma_errors(ids: Seq<IdRow>, errors: Seq<SanctionedError>, i: int)
    requires
        0 <= i,
        errors_fault(ids, errors, i) is None,
    ensures
        forall|k: int| i <= k < errors.len() ==> error_fault(ids, #[trigger] errors[k]) is None,
    decreases errors.len() - i,
{
    if i < errors.len() {
        lemma_errors(ids, errors, i + 1);
    }
}

proof fn lemma_claims(authorities: Seq<AuthorityRow>, claims: Seq<Claim>, i: int)
    requires
        0 <= i,
        claims_fault(authorities, claims, i) is None,
    ensures
        forall|k: int|
            i <= k < claims.len() ==> claim_fault(authorities, #[trigger] claims[k]) is None,
    decreases claims.len() - i,
{
    if i < claims.len() {
        lemma_claims(authorities, claims, i + 1);
    }
}

/// Every registered ID is registered once, and has a class.
pub proof fn every_id_is_unique_and_well_formed(m: Model, i: int, j: int)
    requires
        m.fault() is None,
        0 <= i < j < m.ids.id@.len(),
    ensures
        m.ids.id@[i].id@ != m.ids.id@[j].id@,
        class_spec(m.ids.id@[i].id@) is Some,
        class_spec(m.ids.id@[j].id@) is Some,
{
    lemma_ids(m.ids.id@, 0);
    assert(id_fault(m.ids.id@, i) is None);
    assert(id_fault(m.ids.id@, j) is None);
    let first = m.ids.id@[i];
}

/// A class maps to one suite.
pub proof fn a_class_lives_in_one_suite(m: Model, i: int, j: int)
    requires
        m.fault() is None,
        0 <= i < m.ids.id@.len(),
        0 <= j < m.ids.id@.len(),
        class_spec(m.ids.id@[i].id@) == class_spec(m.ids.id@[j].id@),
    ensures
        m.ids.id@[i].suite@ == m.ids.id@[j].suite@,
{
    lemma_classes(m.ids.id@, 0);
    assert(class_fault(m.ids.id@, j) is None);
    lemma_clash(m.ids.id@, m.ids.id@[j], 0);
    assert(!clash(m.ids.id@[i], m.ids.id@[j]));
}

/// A hardware claim is discharged on real machines and nowhere else.
pub proof fn a_hardware_claim_is_discharged_on_hardware(m: Model, i: int)
    requires
        m.fault() is None,
        0 <= i < m.ids.id@.len(),
        class_spec(m.ids.id@[i].id@) == Some("CH"@),
    ensures
        m.ids.id@[i].tier == Tier::T3,
{
    lemma_hardware(m.ids.id@, 0);
    let row = m.ids.id@[i];
    assert(hardware_fault(row) is None);
}

/// Every sanctioned error names a registered claim.
pub proof fn every_sanctioned_error_names_a_claim(m: Model, i: int)
    requires
        m.fault() is None,
        0 <= i < m.ids.error@.len(),
    ensures
        row(m.ids.id@, m.ids.error@[i].sanctioned_by@) is Some,
{
    lemma_errors(m.ids.id@, m.ids.error@, 0);
    let e = m.ids.error@[i];
    assert(error_fault(m.ids.id@, e) is None);
}

/// Every claim that is reproduced cites an authority that exists.
pub proof fn every_some_true_claim_cites_an_authority(m: Model, i: int)
    requires
        m.fault() is None,
        0 <= i < m.ledger.claim@.len(),
        m.ledger.claim@[i].level == Level::SomeTrue,
    ensures
        m.ledger.claim@[i].authority matches Some(name) && row(
            m.authorities.authority@,
            name@,
        ) is Some,
{
    lemma_claims(m.authorities.authority@, m.ledger.claim@, 0);
    let c = m.ledger.claim@[i];
    assert(claim_fault(m.authorities.authority@, c) is None);
}

// ---- what it takes to pass ----

/// A register passes exactly where every file is of this version, every claim is
/// named once, says something and has its suite, a class has one suite, hardware
/// is claimed on hardware, and every error, authority and statement is backed.
pub proof fn a_register_passes_where_every_row_does(m: Model, r: Result<(), ModelError>)
    requires
        call_ensures(Model::check, (&m,), r),
    ensures
        r is Ok <==> {
            &&& m.ledger.spec@ == SPEC@ && m.ids.spec@ == SPEC@ && m.authorities.spec@ == SPEC@
            &&& forall|i: int|
                0 <= i < m.ids.id@.len() ==> #[trigger] id_fault(m.ids.id@, i) is None
            &&& forall|i: int|
                0 <= i < m.ids.id@.len() ==> #[trigger] class_fault(m.ids.id@, i) is None
            &&& forall|i: int|
                0 <= i < m.ids.id@.len() ==> hardware_fault(#[trigger] m.ids.id@[i]) is None
            &&& forall|i: int|
                0 <= i < m.ids.error@.len() ==> error_fault(
                    m.ids.id@,
                    #[trigger] m.ids.error@[i],
                ) is None
            &&& forall|i: int|
                0 <= i < m.authorities.authority@.len() ==> authority_fault(
                    m.ids.id@,
                    #[trigger] m.authorities.authority@[i],
                ) is None
            &&& forall|i: int|
                0 <= i < m.ledger.claim@.len() ==> claim_fault(
                    m.authorities.authority@,
                    #[trigger] m.ledger.claim@[i],
                ) is None
        },
{
    lemma_all_ids(m.ids.id@, 0);
    lemma_all_classes(m.ids.id@, 0);
    lemma_all_hardware(m.ids.id@, 0);
    lemma_all_errors(m.ids.id@, m.ids.error@, 0);
    lemma_all_authorities(m.ids.id@, m.authorities.authority@, 0);
    lemma_all_claims(m.authorities.authority@, m.ledger.claim@, 0);
}

proof fn lemma_all_ids(rows: Seq<IdRow>, from: int)
    requires
        0 <= from,
    ensures
        ids_fault(rows, from) is None <==> forall|i: int|
            from <= i < rows.len() ==> #[trigger] id_fault(rows, i) is None,
    decreases rows.len() - from,
{
    if from < rows.len() {
        lemma_all_ids(rows, from + 1);
    }
}

proof fn lemma_all_classes(rows: Seq<IdRow>, from: int)
    requires
        0 <= from,
    ensures
        classes_fault(rows, from) is None <==> forall|i: int|
            from <= i < rows.len() ==> #[trigger] class_fault(rows, i) is None,
    decreases rows.len() - from,
{
    if from < rows.len() {
        lemma_all_classes(rows, from + 1);
    }
}

proof fn lemma_all_hardware(rows: Seq<IdRow>, from: int)
    requires
        0 <= from,
    ensures
        hardwares_fault(rows, from) is None <==> forall|i: int|
            from <= i < rows.len() ==> hardware_fault(#[trigger] rows[i]) is None,
    decreases rows.len() - from,
{
    if from < rows.len() {
        lemma_all_hardware(rows, from + 1);
    }
}

proof fn lemma_all_errors(ids: Seq<IdRow>, errors: Seq<SanctionedError>, from: int)
    requires
        0 <= from,
    ensures
        errors_fault(ids, errors, from) is None <==> forall|i: int|
            from <= i < errors.len() ==> error_fault(ids, #[trigger] errors[i]) is None,
    decreases errors.len() - from,
{
    if from < errors.len() {
        lemma_all_errors(ids, errors, from + 1);
    }
}

proof fn lemma_all_authorities(ids: Seq<IdRow>, list: Seq<AuthorityRow>, from: int)
    requires
        0 <= from,
    ensures
        authorities_fault(ids, list, from) is None <==> forall|i: int|
            from <= i < list.len() ==> authority_fault(ids, #[trigger] list[i]) is None,
    decreases list.len() - from,
{
    if from < list.len() {
        lemma_all_authorities(ids, list, from + 1);
    }
}

proof fn lemma_all_claims(authorities: Seq<AuthorityRow>, claims: Seq<Claim>, from: int)
    requires
        0 <= from,
    ensures
        claims_fault(authorities, claims, from) is None <==> forall|i: int|
            from <= i < claims.len() ==> claim_fault(authorities, #[trigger] claims[i]) is None,
    decreases claims.len() - from,
{
    if from < claims.len() {
        lemma_all_claims(authorities, claims, from + 1);
    }
}

/// A claim passes exactly where no claim before it has its name, it says
/// something, has a suite, and is named by its class and number.
pub proof fn a_claim_is_named_once_and_says_something(rows: Seq<IdRow>, i: int)
    requires
        0 <= i < rows.len(),
    ensures
        id_fault(rows, i) is None <==> {
            &&& forall|k: int| 0 <= k < i ==> (#[trigger] rows[k]).id@ != rows[i].id@
            &&& trimmed(rows[i].statement@).len() > 0
            &&& trimmed(rows[i].suite@).len() > 0
            &&& class_spec(rows[i].id@) is Some
        },
        hardware_fault(rows[i]) is None <==> (class_spec(rows[i].id@) == Some("CH"@)
            ==> rows[i].tier == Tier::T3),
{
}

/// The claims of one class are in one suite.
pub proof fn a_class_of_claims_has_one_suite(rows: Seq<IdRow>, i: int)
    requires
        0 <= i < rows.len(),
    ensures
        class_fault(rows, i) is None <==> forall|k: int|
            0 <= k < rows.len() && class_spec((#[trigger] rows[k]).id@) == class_spec(rows[i].id@)
                ==> rows[k].suite@ == rows[i].suite@,
{
    lemma_no_clash(rows, rows[i], 0);
}

proof fn lemma_no_clash(rows: Seq<IdRow>, row: IdRow, from: int)
    requires
        0 <= from,
    ensures
        clash_from(rows, row, from) is None <==> forall|k: int|
            from <= k < rows.len() && class_spec((#[trigger] rows[k]).id@) == class_spec(row.id@)
                ==> rows[k].suite@ == row.suite@,
    decreases rows.len() - from,
{
    if from < rows.len() {
        lemma_no_clash(rows, row, from + 1);
    }
}

/// A claim's class is the two capital letters before its dash, where two figures
/// follow it, and nothing else has a class.
pub proof fn a_class_is_two_letters_before_two_figures(
    id: &str,
    r: Option<String>,
    a: char,
    b: char,
    x: char,
    y: char,
)
    requires
        call_ensures(class_of, (id,), r),
    ensures
        id@ =~= seq![a, b, '-', x, y] && 'A' <= a <= 'Z' && 'A' <= b <= 'Z' && '0' <= x <= '9' && '0'
            <= y <= '9' ==> r is Some && r.unwrap()@ =~= seq![a, b],
        r is Some ==> id@.len() == 5 && id@[2] == '-' && r.unwrap()@ =~= id@.take(2),
{
    reveal_strlit("-");
    let s = id@;
    let sep = "-"@;
    assert(sep =~= seq!['-']);
    crate::text::lemma_first_from(s, sep, 0);
    if s =~= seq![a, b, '-', x, y] && 'A' <= a <= 'Z' && 'A' <= b <= 'Z' && '0' <= x <= '9' && '0'
        <= y <= '9' {
        assert(s.subrange(2, 3) =~= sep);
        assert(crate::text::occurs_at(s, sep, 2));
        let k = crate::text::first_from(s, sep, 0).unwrap();
        assert(s.subrange(k, k + 1)[0] == '-');
        assert(s[k] == '-');
        assert(k == 2);
        assert(s.take(2) =~= seq![a, b]);
        assert(s.skip(3) =~= seq![x, y]);
    }
    if class_spec(s) is Some {
        let k = crate::text::first_from(s, sep, 0).unwrap();
        assert(s.subrange(k, k + 1)[0] == '-');
    }
}

/// An error names a claim that there is and says something; an authority is
/// cited, gives its checksum or says why it has none, and is realised by claims
/// that there are; what holds of some things cites an authority that there is.
pub proof fn everything_cited_is_there(
    ids: Seq<IdRow>,
    authorities: Seq<AuthorityRow>,
    e: SanctionedError,
    a: AuthorityRow,
    c: Claim,
)
    ensures
        error_fault(ids, e) is None <==> row(ids, e.sanctioned_by@) is Some && trimmed(
            e.statement@,
        ).len() > 0,
        authority_fault(ids, a) is None <==> {
            &&& trimmed(a.citation@).len() > 0
            &&& a.checksum@ == "none"@ ==> trimmed(a.checksum_reason@).len() > 0
            &&& forall|i: int|
                0 <= i < a.realized_by@.len() ==> row(ids, (#[trigger] a.realized_by@[i])@) is Some
        },
        claim_fault(authorities, c) is None <==> (c.level == Level::SomeTrue ==> c.authority is Some
            && row(authorities, c.authority.unwrap()@) is Some),
{
    lemma_realized(ids, a, 0);
}

proof fn lemma_realized(ids: Seq<IdRow>, a: AuthorityRow, from: int)
    requires
        0 <= from,
    ensures
        realized_fault(ids, a, from) is None <==> forall|i: int|
            from <= i < a.realized_by@.len() ==> row(ids, (#[trigger] a.realized_by@[i])@) is Some,
    decreases a.realized_by@.len() - from,
{
    if from < a.realized_by@.len() {
        lemma_realized(ids, a, from + 1);
    }
}

} // verus!
