//! The switches of one run.

use vstd::prelude::*;

verus! {

/// The set of the switches that are enabled for one run. Conditions read it;
/// only the driver of the run changes it.
pub struct RulesContext {
    switches: Vec<String>,
}

/// The names that a sequence of strings holds.
pub open spec fn names_of(switches: Seq<String>) -> Set<Seq<char>> {
    Set::new(|name: Seq<char>| exists|i: int| 0 <= i < switches.len() && switches[i]@ == name)
}

impl RulesContext {
    /// The enabled switches as a set of names.
    pub closed spec fn view(&self) -> Set<Seq<char>> {
        names_of(self.switches@)
    }

    /// No switch is enabled.
    pub fn new() -> (rules: Self)
        ensures
            rules@ == Set::<Seq<char>>::empty(),
    {
        let rules = RulesContext { switches: Vec::new() };
        assert(rules@ =~= Set::<Seq<char>>::empty());
        rules
    }

    /// Whether the switch `name` is enabled: exactly this name, as it is
    /// written.
    pub fn contains(&self, name: &str) -> (enabled: bool)
        ensures
            enabled == self@.contains(name@),
    {
        let wanted = String::from_str(name);
        let mut i: usize = 0;
        while i < self.switches.len()
            invariant
                i <= self.switches@.len(),
                wanted@ == name@,
                forall|j: int| 0 <= j < i ==> (#[trigger] self.switches@[j])@ != name@,
            decreases self.switches@.len() - i,
        {
            if self.switches[i] == wanted {
                return true;
            }
            i = i + 1;
        }
        false
    }

    /// Enables the switch `name`.
    pub fn enable(&mut self, name: String)
        ensures
            final(self)@ == old(self)@.insert(name@),
    {
        if !self.contains(name.as_str()) {
            self.switches.push(name);
            assert forall|other: Seq<char>|
                self@.contains(other) == old(self)@.insert(name@).contains(other) by {
                if old(self)@.contains(other) {
                    let i = choose|i: int|
                        0 <= i < old(self).switches@.len() && old(self).switches@[i]@ == other;
                    assert(self.switches@[i]@ == other);
                }
                if other == name@ {
                    assert(self.switches@[self.switches@.len() - 1]@ == other);
                }
            }
        }
        assert(self@ =~= old(self)@.insert(name@));
    }

    /// Disables the switch `name`.
    pub fn disable(&mut self, name: &str)
        ensures
            final(self)@ == old(self)@.remove(name@),
    {
        let wanted = String::from_str(name);
        let mut kept: Vec<String> = Vec::new();
        let mut i: usize = 0;
        while i < self.switches.len()
            invariant
                i <= self.switches@.len(),
                wanted@ == name@,
                names_of(kept@) == names_of(self.switches@.subrange(0, i as int)).remove(name@),
            decreases self.switches@.len() - i,
        {
            let ghost before = kept@;
            let ghost prefix = self.switches@.subrange(0, i as int);
            let ghost longer = self.switches@.subrange(0, i + 1);
            let ghost current = self.switches@[i as int]@;
            let keep = !(self.switches[i] == wanted);
            if keep {
                kept.push(self.switches[i].clone());
            }
            proof {
                assert(longer.drop_last() =~= prefix);
                assert(longer[i as int]@ == current);
                assert forall|other: Seq<char>|
                    names_of(kept@).contains(other) <==> names_of(longer).remove(name@).contains(
                        other,
                    ) by {
                    if names_of(kept@).contains(other) {
                        let k = choose|k: int| 0 <= k < kept@.len() && kept@[k]@ == other;
                        if k < before.len() {
                            assert(before[k]@ == other);
                            assert(names_of(before).contains(other));
                            let p = choose|p: int| 0 <= p < prefix.len() && prefix[p]@ == other;
                            assert(longer[p]@ == other);
                        } else {
                            assert(other == current);
                        }
                    }
                    if other != name@ && names_of(longer).contains(other) {
                        let p = choose|p: int| 0 <= p < longer.len() && longer[p]@ == other;
                        if p < i {
                            assert(prefix[p]@ == other);
                            assert(names_of(prefix).contains(other));
                            assert(names_of(before).contains(other));
                            let k = choose|k: int| 0 <= k < before.len() && before[k]@ == other;
                            assert(kept@[k]@ == other);
                        } else {
                            assert(other == current);
                            assert(kept@[kept@.len() - 1]@ == other);
                        }
                    }
                }
                assert(names_of(kept@) =~= names_of(longer).remove(name@));
            }
            i = i + 1;
        }
        proof {
            assert(self.switches@.subrange(0, i as int) =~= self.switches@);
            assert(names_of(kept@) =~= old(self)@.remove(name@));
        }
        self.switches = kept;
    }
}

} // verus!
