//! The named calendar source list: an externally persisted configuration
//! value, mutated here only through its checked add and remove operations.

use vstd::prelude::*;

use crate::text::str_eq;

verus! {

/// One stored calendar source: a name chosen by the operator and the URL
/// the calendar text is fetched from.
pub struct ICalConfig {
    pub url: String,
    pub name: String,
}

/// The mathematical content of one stored source.
pub struct ICalConfigModel {
    pub url: Seq<char>,
    pub name: Seq<char>,
}

impl View for ICalConfig {
    type V = ICalConfigModel;

    open spec fn view(&self) -> ICalConfigModel {
        ICalConfigModel { url: self.url@, name: self.name@ }
    }
}

impl Default for ICalConfig {
    /// An empty source entry.
    fn default() -> (r: Self)
        ensures
            r@.url.len() == 0,
            r@.name.len() == 0,
    {
        ICalConfig { url: String::new(), name: String::new() }
    }
}

/// The whole configuration: the ordered list of stored sources.
pub struct Config {
    pub ical: Vec<ICalConfig>,
}

impl View for Config {
    type V = Seq<ICalConfigModel>;

    open spec fn view(&self) -> Seq<ICalConfigModel> {
        self.ical@.map_values(|c: ICalConfig| c@)
    }
}

impl Default for Config {
    /// A configuration with no stored sources.
    fn default() -> (r: Self)
        ensures
            r@ == Seq::<ICalConfigModel>::empty(),
    {
        let r = Config { ical: Vec::new() };
        proof {
            assert(r@ =~= Seq::<ICalConfigModel>::empty());
        }
        r
    }
}

/// The refusals of the configuration operations.
#[derive(Clone, Copy, PartialEq, Eq, Structural, Debug)]
pub enum ConfigError {
    /// A source with the same name is already stored.
    AlreadyExists,
    /// The index names no stored source.
    InvalidIndex,
}

/// Whether some stored source already carries the name.
pub open spec fn spec_has_name(s: Seq<ICalConfigModel>, name: Seq<char>) -> bool {
    exists|i: int| 0 <= i < s.len() && s[i].name == name
}

/// Registers one source under a fresh name at the end of the list; a name
/// already in use is refused and nothing changes.
pub fn ics_add(config: &mut Config, name: String, link: String) -> (r: Result<(), ConfigError>)
    ensures
        spec_has_name(old(config)@, name@) ==> r == Result::<(), ConfigError>::Err(
            ConfigError::AlreadyExists,
        ) && final(config)@ == old(config)@,
        !spec_has_name(old(config)@, name@) ==> r is Ok && final(config)@ == old(config)@.push(
            ICalConfigModel { url: link@, name: name@ },
        ),
{
    let n = config.ical.len();
    let mut i: usize = 0;
    while i < n
        invariant
            i <= n,
            n == config.ical.len(),
            forall|k: int| 0 <= k < i ==> config@[k].name != name@,
        decreases n - i,
    {
        if str_eq(config.ical[i].name.as_str(), name.as_str()) {
            proof {
                assert(config@[i as int].name == name@);
            }
            return Err(ConfigError::AlreadyExists);
        }
        i += 1;
    }
    config.ical.push(ICalConfig { url: link, name });
    proof {
        assert(config@ =~= old(config)@.push(
            ICalConfigModel { url: link@, name: name@ },
        ));
    }
    Ok(())
}

/// Removes the source at `index`, shifting the rest left; an index past the
/// end is refused and nothing changes.
pub fn ics_remove(config: &mut Config, index: usize) -> (r: Result<(), ConfigError>)
    ensures
        index >= old(config)@.len() ==> r == Result::<(), ConfigError>::Err(
            ConfigError::InvalidIndex,
        ) && final(config)@ == old(config)@,
        index < old(config)@.len() ==> r is Ok && final(config)@ == old(config)@.remove(
            index as int,
        ),
{
    if index >= config.ical.len() {
        return Err(ConfigError::InvalidIndex);
    }
    config.ical.remove(index);
    proof {
        assert(config@ =~= old(config)@.remove(index as int));
    }
    Ok(())
}

} // verus!
