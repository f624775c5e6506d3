//! The ledger of recorded decisions: an absent flag is undecided, never a default.
use vstd::prelude::*;
use vstd::string::*;
use crate::table::Table;
use crate::text;

verus! {

/// Whether the canonical control plane owns a workspace's transferred domains.
pub const CONTROL_PLANE_ENABLED_FLAG: &'static str = "control_plane_enabled";

/// Why a flag operation failed.
#[derive(Debug)]
pub enum FeatureFlagError {
    InvalidFlagKey(&'static str),
    /// The store itself failed; nothing was changed.
    Internal { reason: String },
}

impl FeatureFlagError {
    /// The words of the error.
    pub open spec fn words(&self) -> Seq<char> {
        match *self {
            FeatureFlagError::InvalidFlagKey(reason) => "invalid flag key: "@ + reason@,
            FeatureFlagError::Internal { reason } => "feature flag error: "@ + reason@,
        }
    }

    /// The error in words.
    pub fn to_text(&self) -> (r: String)
        ensures
            r@ == self.words(),
    {
        match self {
            FeatureFlagError::InvalidFlagKey(reason) => text::joined(
                "invalid flag key: ",
                reason,
            ),
            FeatureFlagError::Internal { reason } => text::joined("feature flag error: ", reason),
        }
    }
}

/// What is wrong with a key and a value; none where both are acceptable.
pub open spec fn flag_fault(key: Seq<char>, value: Seq<char>) -> Option<Seq<char>> {
    if text::is_blank(key) {
        Some("flag key is required"@)
    } else if value.len() == 0 {
        Some("flag value is required"@)
    } else {
        None
    }
}

/// The error names this fault.
pub open spec fn names_fault(error: FeatureFlagError, fault: Option<Seq<char>>) -> bool {
    error matches FeatureFlagError::InvalidFlagKey(reason) && fault == Some(reason@)
}

/// Checks a key and a value.
pub fn validate(flag_key: &str, flag_value: &str) -> (r: Result<(), FeatureFlagError>)
    ensures
        match r {
            Ok(_) => flag_fault(flag_key@, flag_value@) is None,
            Err(error) => names_fault(error, flag_fault(flag_key@, flag_value@)),
        },
{
    if text::blank(flag_key) {
        return Err(FeatureFlagError::InvalidFlagKey("flag key is required"));
    }
    if flag_value.is_empty() {
        return Err(FeatureFlagError::InvalidFlagKey("flag value is required"));
    }
    Ok(())
}

/// The flag of a key, where it is decided.
pub open spec fn flag_of(flags: Map<Seq<char>, Seq<char>>, key: Seq<char>) -> Option<Seq<char>> {
    if flags.contains_key(key) {
        Some(flags[key])
    } else {
        None
    }
}

/// What comes of a write: the value stands, in place of the one that was there.
pub open spec fn written(
    before: Map<Seq<char>, Seq<char>>,
    key: Seq<char>,
    value: Seq<char>,
    r: Result<(), FeatureFlagError>,
    after: Map<Seq<char>, Seq<char>>,
) -> bool {
    match r {
        Ok(_) => flag_fault(key, value) is None && after == before.insert(key, value),
        Err(error) => (error is Internal || names_fault(error, flag_fault(key, value))) && after
            == before,
    }
}

/// What comes of an insert-only write: it records a value where there is none and leaves a
/// recorded one alone. The result tells whether it recorded.
pub open spec fn insert_only(
    before: Map<Seq<char>, Seq<char>>,
    key: Seq<char>,
    value: Seq<char>,
    r: Result<bool, FeatureFlagError>,
    after: Map<Seq<char>, Seq<char>>,
) -> bool {
    match r {
        Ok(recorded) => {
            &&& flag_fault(key, value) is None
            &&& recorded == !before.contains_key(key)
            &&& after == if recorded {
                before.insert(key, value)
            } else {
                before
            }
        },
        Err(error) => {
            &&& error is Internal || names_fault(error, flag_fault(key, value))
            &&& after == before
        },
    }
}

/// A store of flags.
pub trait FeatureFlagRepository {
    /// The store is in order.
    spec fn ready(&self) -> bool;

    /// The decided flags.
    spec fn flags(&self) -> Map<Seq<char>, Seq<char>>;

    /// The store itself can fail, whatever it is asked.
    spec fn fallible(&self) -> bool;

    /// The value of a flag, or nothing while it is undecided.
    fn get(&self, flag_key: &str) -> (r: Result<Option<String>, FeatureFlagError>)
        requires
            self.ready(),
        ensures
            match r {
                Ok(Some(value)) => !text::is_blank(flag_key@) && flag_of(self.flags(), flag_key@)
                    == Some(value@),
                Ok(None) => !text::is_blank(flag_key@) && flag_of(self.flags(), flag_key@) is None,
                Err(error) => error is Internal || (text::is_blank(flag_key@) && names_fault(
                    error,
                    Some("flag key is required"@),
                )),
            },
            r matches Err(FeatureFlagError::Internal { .. }) ==> self.fallible(),
    ;

    /// Records a value, in place of the one that was there.
    fn set(&mut self, flag_key: &str, flag_value: &str) -> (r: Result<(), FeatureFlagError>)
        requires
            old(self).ready(),
        ensures
            final(self).ready(),
            written(old(self).flags(), flag_key@, flag_value@, r, final(self).flags()),
            r matches Err(FeatureFlagError::Internal { .. }) ==> old(self).fallible(),
            final(self).fallible() == old(self).fallible(),
    ;

    /// Records a value only where there is none yet.
    fn set_if_absent(&mut self, flag_key: &str, flag_value: &str) -> (r: Result<
        bool,
        FeatureFlagError,
    >)
        requires
            old(self).ready(),
        ensures
            final(self).ready(),
            insert_only(
                old(self).flags(),
                flag_key@,
                flag_value@,
                r,
                final(self).flags(),
            ),
            r matches Err(FeatureFlagError::Internal { .. }) ==> old(self).fallible(),
            final(self).fallible() == old(self).fallible(),
    ;
}

/// Flags in memory.
pub struct FeatureFlagTable {
    pub rows: Table<String>,
}

impl FeatureFlagTable {
    /// A ledger without decisions.
    pub fn new() -> (r: Self)
        ensures
            r.ready(),
            r.flags() == Map::<Seq<char>, Seq<char>>::empty(),
    {
        let r: FeatureFlagTable = FeatureFlagTable { rows: Table::new() };
        assert(r.flags() =~= Map::empty());
        r
    }

    /// The number of decided flags.
    pub fn count(&self) -> (r: usize)
        requires
            self.ready(),
        ensures
            r == self.flags().dom().len(),
    {
        assert(self.flags().dom() =~= self.rows@.dom());
        self.rows.len()
    }
}

impl FeatureFlagRepository for FeatureFlagTable {
    open spec fn ready(&self) -> bool {
        self.rows.wf()
    }

    open spec fn flags(&self) -> Map<Seq<char>, Seq<char>> {
        self.rows@.map_values(|value: String| value@)
    }

    open spec fn fallible(&self) -> bool {
        false
    }

    fn get(&self, flag_key: &str) -> (r: Result<Option<String>, FeatureFlagError>)
        ensures
            !text::is_blank(flag_key@) ==> r is Ok,
            text::is_blank(flag_key@) ==> !(r matches Err(FeatureFlagError::Internal { .. })),
    {
        proof {
            reveal_strlit("present");
        }
        match validate(flag_key, "present") {
            Ok(_) => {},
            Err(error) => {
                return Err(error);
            },
        }
        match self.rows.get(flag_key) {
            Some(value) => Ok(Some(value.clone())),
            None => Ok(None),
        }
    }

    fn set(&mut self, flag_key: &str, flag_value: &str) -> (r: Result<(), FeatureFlagError>)
        ensures
            r is Ok <==> flag_fault(flag_key@, flag_value@) is None,
            !(r matches Err(FeatureFlagError::Internal { .. })),
    {
        match validate(flag_key, flag_value) {
            Ok(_) => {},
            Err(error) => {
                return Err(error);
            },
        }
        self.rows.put(flag_key.to_owned(), flag_value.to_owned());
        assert(self.flags() =~= old(self).flags().insert(flag_key@, flag_value@));
        Ok(())
    }

    fn set_if_absent(&mut self, flag_key: &str, flag_value: &str) -> (r: Result<
        bool,
        FeatureFlagError,
    >)
        ensures
            r is Ok <==> flag_fault(flag_key@, flag_value@) is None,
            !(r matches Err(FeatureFlagError::Internal { .. })),
    {
        match validate(flag_key, flag_value) {
            Ok(_) => {},
            Err(error) => {
                return Err(error);
            },
        }
        if self.rows.has(flag_key) {
            return Ok(false);
        }
        self.rows.put(flag_key.to_owned(), flag_value.to_owned());
        assert(self.flags() =~= old(self).flags().insert(flag_key@, flag_value@));
        Ok(true)
    }
}

/// A lost race never overwrites the winner's value: an insert-only write leaves every recorded
/// flag as it is.
pub proof fn law_insert_only_keeps_recorded_flags(
    before: Map<Seq<char>, Seq<char>>,
    key: Seq<char>,
    value: Seq<char>,
    r: Result<bool, FeatureFlagError>,
    after: Map<Seq<char>, Seq<char>>,
    other: Seq<char>,
)
    requires
        insert_only(before, key, value, r, after),
        before.contains_key(other),
    ensures
        after.contains_key(other),
        after[other] == before[other],
{
}

/// Writing a value that stands changes nothing.
pub proof fn law_rewriting_a_value_is_idempotent(
    before: Map<Seq<char>, Seq<char>>,
    key: Seq<char>,
    value: Seq<char>,
    r: Result<(), FeatureFlagError>,
    after: Map<Seq<char>, Seq<char>>,
)
    requires
        flag_of(before, key) == Some(value),
        written(before, key, value, r, after),
    ensures
        after == before,
{
    assert(before.insert(key, value) =~= before);
}

} // verus!
