use vstd::prelude::*;

verus! {

/// Settings that apply to every watched path unless it overrides them.
#[derive(Debug, Clone, Copy, Default, PartialEq, Eq)]
pub struct Global {
    pub min_age_seconds: u32,
}

/// One watched path: files in `path` that are old enough move into `dest`.
#[derive(Debug, Clone, Default, PartialEq, Eq)]
pub struct PathConfig {
    pub path: String,
    pub dest: String,
    pub min_age_seconds: Option<u32>,
}

/// The whole configuration: global defaults and the named watched paths.
#[derive(Debug, Clone, Default, PartialEq, Eq)]
pub struct Config {
    pub global: Global,
    pub paths: Vec<(String, PathConfig)>,
}

/// The threshold a resolved watched path is scanned with.
pub open spec fn effective_min_age(p: PathConfig) -> u32 {
    p.min_age_seconds->0
}

/// What resolution makes of one watched path's threshold: its own value, or
/// else the global default.
pub open spec fn resolved_min_age(own: Option<u32>, global: u32) -> u32 {
    match own {
        Some(m) => m,
        None => global,
    }
}

impl PathConfig {
    /// The threshold this path is scanned with, once resolved.
    pub fn min_age(&self) -> (r: u32)
        requires
            self.min_age_seconds is Some,
        ensures
            r == effective_min_age(*self),
    {
        self.min_age_seconds.unwrap()
    }
}

impl Config {
    /// Every watched path carries a threshold of its own.
    pub open spec fn resolved(&self) -> bool {
        forall|i: int| 0 <= i < self.paths@.len() ==> (#[trigger] self.paths@[i]).1.min_age_seconds is Some
    }

    /// Gives every watched path without a threshold of its own the global one,
    /// so that scanning never consults the global defaults.
    pub fn resolve_min_ages(&mut self)
        ensures
            final(self).global == old(self).global,
            final(self).resolved(),
            final(self).paths@.len() == old(self).paths@.len(),
            forall|i: int|
                0 <= i < old(self).paths@.len() ==> {
                    &&& (#[trigger] final(self).paths@[i]).0 == old(self).paths@[i].0
                    &&& final(self).paths@[i].1.path == old(self).paths@[i].1.path
                    &&& final(self).paths@[i].1.dest == old(self).paths@[i].1.dest
                    &&& final(self).paths@[i].1.min_age_seconds == Some(
                        resolved_min_age(
                            old(self).paths@[i].1.min_age_seconds,
                            old(self).global.min_age_seconds,
                        ),
                    )
                },
    {
        let g = self.global.min_age_seconds;
        let mut i: usize = 0;
        while i < self.paths.len()
            invariant
                self.global == old(self).global,
                g == old(self).global.min_age_seconds,
                i <= self.paths@.len(),
                self.paths@.len() == old(self).paths@.len(),
                forall|k: int|
                    0 <= k < old(self).paths@.len() ==> {
                        &&& (#[trigger] self.paths@[k]).0 == old(self).paths@[k].0
                        &&& self.paths@[k].1.path == old(self).paths@[k].1.path
                        &&& self.paths@[k].1.dest == old(self).paths@[k].1.dest
                        &&& self.paths@[k].1.min_age_seconds == if k < i {
                            Some(resolved_min_age(old(self).paths@[k].1.min_age_seconds, g))
                        } else {
                            old(self).paths@[k].1.min_age_seconds
                        }
                    },
            decreases self.paths@.len() - i,
        {
            if self.paths[i].1.min_age_seconds.is_none() {
                self.paths[i].1.min_age_seconds = Some(g);
            }
            i = i + 1;
        }
    }
}

} // verus!
