use vstd::prelude::*;
use crate::text::str_eq;

verus! {

/// One registered breakpoint: a minimum width in pixels.
#[derive(Debug, PartialEq, Eq, Structural)]
pub struct BreakPoint {
    /// The `min-width` of the media query, in pixels.
    pub width: usize,
}

/// One name registered for a breakpoint.
#[derive(Debug)]
pub struct BreakPointEntry {
    pub name: String,
    pub point: BreakPoint,
}

/// The registry of breakpoint names: a newer registration of a name wins.
#[derive(Debug)]
pub struct BreakPointSystem {
    pub inner: Vec<BreakPointEntry>,
}

/// The width registered under `name`, newest registration first.
pub open spec fn bp_lookup(s: Seq<BreakPointEntry>, name: Seq<char>) -> Option<nat>
    decreases s.len(),
{
    if s.len() == 0 {
        None
    } else if s[0].name@ == name {
        Some(s[0].point.width as nat)
    } else {
        bp_lookup(s.drop_first(), name)
    }
}

impl BreakPointSystem {
    /// An empty registry.
    pub fn new() -> (r: BreakPointSystem)
        ensures
            r.inner@.len() == 0,
            forall|n: Seq<char>| bp_lookup(r.inner@, n) is None,
    {
        BreakPointSystem { inner: Vec::new() }
    }

    /// The registry every build starts from: the five standard responsive
    /// widths.
    pub fn builtin() -> (r: BreakPointSystem)
        ensures
            r.inner@.len() == 5,
            bp_lookup(r.inner@, "sm"@) == Some(640nat),
            bp_lookup(r.inner@, "md"@) == Some(768nat),
            bp_lookup(r.inner@, "lg"@) == Some(1024nat),
            bp_lookup(r.inner@, "xl"@) == Some(1280nat),
            bp_lookup(r.inner@, "2xl"@) == Some(1536nat),
            forall|n: Seq<char>|
                n != "sm"@ && n != "md"@ && n != "lg"@ && n != "xl"@ && n != "2xl"@ ==> bp_lookup(
                    r.inner@,
                    n,
                ) is None,
    {
        proof {
            reveal_strlit("sm");
            reveal_strlit("md");
            reveal_strlit("lg");
            reveal_strlit("xl");
            reveal_strlit("2xl");
            assert("sm"@.len() == 2 && "md"@.len() == 2 && "lg"@.len() == 2 && "xl"@.len() == 2
                && "2xl"@.len() == 3);
            assert("sm"@[0] == 's' && "md"@[0] == 'm' && "lg"@[0] == 'l' && "xl"@[0] == 'x');
        }
        let mut new = Self::new();
        new.register("sm".to_owned(), 640);
        new.register("md".to_owned(), 768);
        new.register("lg".to_owned(), 1024);
        new.register("xl".to_owned(), 1280);
        new.register("2xl".to_owned(), 1536);
        new
    }

    /// Registers `name` at `width` pixels, returning the breakpoint the
    /// name held before, if any. The new registration shadows any older
    /// one.
    pub fn register(&mut self, name: String, width: usize) -> (r: Option<BreakPoint>)
        ensures
            final(self).inner@.len() == old(self).inner@.len() + 1,
            bp_lookup(final(self).inner@, name@) == Some(width as nat),
            forall|n: Seq<char>| n != name@ ==> bp_lookup(final(self).inner@, n) == bp_lookup(
                old(self).inner@,
                n,
            ),
            r matches Some(b) ==> bp_lookup(old(self).inner@, name@) == Some(b.width as nat),
            r is None ==> bp_lookup(old(self).inner@, name@) is None,
    {
        let previous = self.get(name.as_str());
        let entry = BreakPointEntry { name, point: BreakPoint { width } };
        let ghost before = self.inner@;
        self.inner.insert(0, entry);
        proof {
            assert(self.inner@.drop_first() =~= before);
        }
        previous
    }

    /// The breakpoint registered under `name`, if any.
    pub fn get(&self, name: &str) -> (r: Option<BreakPoint>)
        ensures
            r matches Some(b) ==> bp_lookup(self.inner@, name@) == Some(b.width as nat),
            r is None ==> bp_lookup(self.inner@, name@) is None,
    {
        let ghost s = self.inner@;
        proof {
            assert(s.skip(0) =~= s);
        }
        let mut i: usize = 0;
        while i < self.inner.len()
            invariant
                s == self.inner@,
                0 <= i <= s.len(),
                bp_lookup(s, name@) == bp_lookup(s.skip(i as int), name@),
            decreases s.len() - i,
        {
            proof {
                assert(s.skip(i as int)[0] == s[i as int]);
                assert(s.skip(i as int).drop_first() =~= s.skip(i + 1));
            }
            if str_eq(self.inner[i].name.as_str(), name) {
                return Some(BreakPoint { width: self.inner[i].point.width });
            }
            i += 1;
        }
        proof {
            assert(s.skip(s.len() as int).len() == 0);
        }
        None
    }
}

} // verus!
