//! Compiler directives: per-function hints written as `#adrenaline:<name>`
//! comments in the source. The recognized names form a closed set; unknown
//! names are dropped silently.
use vstd::prelude::*;
use crate::text::{char_vec, trim_chars, vec_eq_str, spec_trim};

verus! {

#[derive(Debug, Clone, Copy, PartialEq, Eq, Hash, Structural)]
pub enum Directive {
    NoCompile,
    Hot,
    Inline,
    Parallel,
    Simd,
    Cache,
}

/// The directive a raw (already trimmed) name denotes, if any.
pub open spec fn spec_directive_of(s: Seq<char>) -> Option<Directive> {
    if s == "no-compile"@ {
        Some(Directive::NoCompile)
    } else if s == "hot"@ {
        Some(Directive::Hot)
    } else if s == "inline"@ {
        Some(Directive::Inline)
    } else if s == "parallel"@ {
        Some(Directive::Parallel)
    } else if s == "simd"@ {
        Some(Directive::Simd)
    } else if s == "cache"@ {
        Some(Directive::Cache)
    } else {
        None
    }
}

impl Directive {
    /// Maps a raw directive name to the closed enum; whitespace around the
    /// name is ignored, unrecognized names give `None`.
    pub fn from_string(s: &str) -> (r: Option<Directive>)
        ensures
            r == spec_directive_of(spec_trim(s@)),
    {
        let chars = char_vec(s);
        let t = trim_chars(&chars);
        if vec_eq_str(&t, "no-compile") {
            Some(Directive::NoCompile)
        } else if vec_eq_str(&t, "hot") {
            Some(Directive::Hot)
        } else if vec_eq_str(&t, "inline") {
            Some(Directive::Inline)
        } else if vec_eq_str(&t, "parallel") {
            Some(Directive::Parallel)
        } else if vec_eq_str(&t, "simd") {
            Some(Directive::Simd)
        } else if vec_eq_str(&t, "cache") {
            Some(Directive::Cache)
        } else {
            None
        }
    }
}

/// The set of directives attached to one function: one flag per member of the
/// closed directive set.
#[derive(Debug, Clone, Copy, PartialEq, Eq, Structural)]
pub struct DirectiveSet {
    pub no_compile: bool,
    pub hot: bool,
    pub inline: bool,
    pub parallel: bool,
    pub simd: bool,
    pub cache: bool,
}

impl DirectiveSet {
    /// Whether the set holds `d`.
    pub open spec fn spec_has(self, d: Directive) -> bool {
        match d {
            Directive::NoCompile => self.no_compile,
            Directive::Hot => self.hot,
            Directive::Inline => self.inline,
            Directive::Parallel => self.parallel,
            Directive::Simd => self.simd,
            Directive::Cache => self.cache,
        }
    }

    /// The empty set.
    pub open spec fn spec_empty() -> DirectiveSet {
        DirectiveSet {
            no_compile: false,
            hot: false,
            inline: false,
            parallel: false,
            simd: false,
            cache: false,
        }
    }

    /// The set grown by `d`.
    pub open spec fn spec_add(self, d: Directive) -> DirectiveSet {
        match d {
            Directive::NoCompile => DirectiveSet { no_compile: true, ..self },
            Directive::Hot => DirectiveSet { hot: true, ..self },
            Directive::Inline => DirectiveSet { inline: true, ..self },
            Directive::Parallel => DirectiveSet { parallel: true, ..self },
            Directive::Simd => DirectiveSet { simd: true, ..self },
            Directive::Cache => DirectiveSet { cache: true, ..self },
        }
    }

    /// The set denoted by a list of raw directive names: the union of the
    /// recognized ones, in any order.
    pub open spec fn spec_from_strings(strings: Seq<Seq<char>>) -> DirectiveSet
        decreases strings.len(),
    {
        if strings.len() == 0 {
            DirectiveSet::spec_empty()
        } else {
            let rest = DirectiveSet::spec_from_strings(strings.drop_last());
            match spec_directive_of(spec_trim(strings.last())) {
                Some(d) => rest.spec_add(d),
                None => rest,
            }
        }
    }

    pub fn new() -> (r: DirectiveSet)
        ensures
            r == DirectiveSet::spec_empty(),
    {
        DirectiveSet {
            no_compile: false,
            hot: false,
            inline: false,
            parallel: false,
            simd: false,
            cache: false,
        }
    }

    /// Builds the set from raw directive names, dropping unrecognized ones.
    pub fn from_strings(strings: &Vec<String>) -> (r: DirectiveSet)
        ensures
            r == DirectiveSet::spec_from_strings(strings.deep_view()),
    {
        let mut r = DirectiveSet::new();
        let mut i: usize = 0;
        while i < strings.len()
            invariant
                i <= strings@.len(),
                r == DirectiveSet::spec_from_strings(strings.deep_view().take(i as int)),
            decreases strings@.len() - i,
        {
            match Directive::from_string(strings[i].as_str()) {
                Some(d) => {
                    r = r.add_val(d);
                },
                None => {},
            }
            proof {
                let dv = strings.deep_view();
                assert(dv.take(i + 1 as int).drop_last() =~= dv.take(i as int));
                assert(dv.take(i + 1 as int).last() == dv[i as int]);
            }
            i += 1;
        }
        proof {
            assert(strings.deep_view().take(strings@.len() as int) =~= strings.deep_view());
        }
        r
    }

    pub fn has(&self, directive: Directive) -> (r: bool)
        ensures
            r == self.spec_has(directive),
    {
        match directive {
            Directive::NoCompile => self.no_compile,
            Directive::Hot => self.hot,
            Directive::Inline => self.inline,
            Directive::Parallel => self.parallel,
            Directive::Simd => self.simd,
            Directive::Cache => self.cache,
        }
    }

    /// `add` written as a value transform, used where a fresh set is built.
    pub fn add_val(self, directive: Directive) -> (r: DirectiveSet)
        ensures
            r == self.spec_add(directive),
    {
        match directive {
            Directive::NoCompile => DirectiveSet { no_compile: true, ..self },
            Directive::Hot => DirectiveSet { hot: true, ..self },
            Directive::Inline => DirectiveSet { inline: true, ..self },
            Directive::Parallel => DirectiveSet { parallel: true, ..self },
            Directive::Simd => DirectiveSet { simd: true, ..self },
            Directive::Cache => DirectiveSet { cache: true, ..self },
        }
    }

    pub fn add(&mut self, directive: Directive)
        ensures
            *final(self) == old(self).spec_add(directive),
    {
        match directive {
            Directive::NoCompile => self.no_compile = true,
            Directive::Hot => self.hot = true,
            Directive::Inline => self.inline = true,
            Directive::Parallel => self.parallel = true,
            Directive::Simd => self.simd = true,
            Directive::Cache => self.cache = true,
        }
    }

    /// A function is compiled unless `no-compile` routes it to the fallback.
    pub fn should_compile(&self) -> (r: bool)
        ensures
            r == !self.spec_has(Directive::NoCompile),
    {
        !self.no_compile
    }

    pub fn is_hot(&self) -> (r: bool)
        ensures
            r == self.spec_has(Directive::Hot),
    {
        self.hot
    }

    pub fn should_inline(&self) -> (r: bool)
        ensures
            r == self.spec_has(Directive::Inline),
    {
        self.inline
    }

    pub fn parallelizable(&self) -> (r: bool)
        ensures
            r == self.spec_has(Directive::Parallel),
    {
        self.parallel
    }

    pub fn simd_eligible(&self) -> (r: bool)
        ensures
            r == self.spec_has(Directive::Simd),
    {
        self.simd
    }

    pub fn use_cache(&self) -> (r: bool)
        ensures
            r == self.spec_has(Directive::Cache),
    {
        self.cache
    }

    /// The members of the set, listed in declaration order.
    pub fn all(&self) -> (r: Vec<Directive>)
        ensures
            forall|d: Directive| self.spec_has(d) == r@.contains(d),
            forall|i: int, j: int| 0 <= i < j < r@.len() ==> r@[i] != r@[j],
    {
        let mut r: Vec<Directive> = Vec::new();
        proof {
            assert forall|d: Directive| !r@.contains(d) by {
                if r@.contains(d) {
                    let w = choose|w: int| 0 <= w < r@.len() && r@[w] == d;
                }
            }
        }
        let ghost s0 = r@;
        if self.no_compile {
            r.push(Directive::NoCompile);
            proof {
                crate::text::lemma_push_fresh(s0, r@, Directive::NoCompile);
            }
        }
        proof {
            assert(forall|d: Directive|
                r@.contains(d) == (d == Directive::NoCompile && self.no_compile));
        }
        let ghost s1 = r@;
        if self.hot {
            r.push(Directive::Hot);
            proof {
                crate::text::lemma_push_fresh(s1, r@, Directive::Hot);
            }
        }
        proof {
            assert(forall|d: Directive|
                r@.contains(d) == ((d == Directive::NoCompile && self.no_compile) || (d
                    == Directive::Hot && self.hot)));
        }
        let ghost s2 = r@;
        if self.inline {
            r.push(Directive::Inline);
            proof {
                crate::text::lemma_push_fresh(s2, r@, Directive::Inline);
            }
        }
        proof {
            assert(forall|d: Directive|
                r@.contains(d) == ((d == Directive::NoCompile && self.no_compile) || (d
                    == Directive::Hot && self.hot) || (d == Directive::Inline && self.inline)));
        }
        let ghost s3 = r@;
        if self.parallel {
            r.push(Directive::Parallel);
            proof {
                crate::text::lemma_push_fresh(s3, r@, Directive::Parallel);
            }
        }
        proof {
            assert(forall|d: Directive|
                r@.contains(d) == ((d == Directive::NoCompile && self.no_compile) || (d
                    == Directive::Hot && self.hot) || (d == Directive::Inline && self.inline) || (d
                    == Directive::Parallel && self.parallel)));
        }
        let ghost s4 = r@;
        if self.simd {
            r.push(Directive::Simd);
            proof {
                crate::text::lemma_push_fresh(s4, r@, Directive::Simd);
            }
        }
        proof {
            assert(forall|d: Directive|
                r@.contains(d) == ((d == Directive::NoCompile && self.no_compile) || (d
                    == Directive::Hot && self.hot) || (d == Directive::Inline && self.inline) || (d
                    == Directive::Parallel && self.parallel) || (d == Directive::Simd
                    && self.simd)));
        }
        let ghost s5 = r@;
        if self.cache {
            r.push(Directive::Cache);
            proof {
                crate::text::lemma_push_fresh(s5, r@, Directive::Cache);
            }
        }
        proof {
            assert(forall|d: Directive|
                r@.contains(d) == ((d == Directive::NoCompile && self.no_compile) || (d
                    == Directive::Hot && self.hot) || (d == Directive::Inline && self.inline) || (d
                    == Directive::Parallel && self.parallel) || (d == Directive::Simd && self.simd)
                    || (d == Directive::Cache && self.cache)));
        }
        r
    }
}

impl Default for DirectiveSet {
    fn default() -> (r: DirectiveSet)
        ensures
            r == DirectiveSet::spec_empty(),
    {
        DirectiveSet::new()
    }
}

} // verus!
