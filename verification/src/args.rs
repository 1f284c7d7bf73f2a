use crate::text::lemma_lex_lt_connected;
use crate::text::lemma_lex_lt_trans;
use crate::text::lex_lt;
use crate::text::str_eq;
use crate::text::str_lt;
use vstd::prelude::*;
use vstd::string::*;

verus! {

/// A configuration list is kept strictly sorted by variable name, so each
/// name occurs once and the stored order is canonical.
pub open spec fn cfg_sorted(s: Seq<(Seq<char>, Seq<char>)>) -> bool {
    forall|i: int, j: int|
        #![trigger s[i], s[j]]
        0 <= i < j < s.len() ==> lex_lt(s[i].0, s[j].0)
}

/// Insertion into a sorted configuration list: an existing name's value is
/// replaced in place, a new name enters before the first larger one.
pub open spec fn cfg_insert(
    s: Seq<(Seq<char>, Seq<char>)>,
    k: Seq<char>,
    v: Seq<char>,
) -> Seq<(Seq<char>, Seq<char>)>
    decreases s.len(),
{
    if s.len() == 0 {
        seq![(k, v)]
    } else if lex_lt(k, s[0].0) {
        seq![(k, v)] + s
    } else if k == s[0].0 {
        seq![(k, v)] + s.drop_first()
    } else {
        seq![s[0]] + cfg_insert(s.drop_first(), k, v)
    }
}

/// Where the first name not below `k` sits at position `i`, the insertion is
/// a replacement or a splice at `i`.
proof fn lemma_cfg_insert_at(s: Seq<(Seq<char>, Seq<char>)>, k: Seq<char>, v: Seq<char>, i: int)
    requires
        0 <= i <= s.len(),
        forall|j: int| 0 <= j < i ==> lex_lt(#[trigger] s[j].0, k),
        i < s.len() ==> !lex_lt(s[i].0, k),
    ensures
        i < s.len() && s[i].0 == k ==> cfg_insert(s, k, v) == s.take(i) + seq![(k, v)] + s.skip(
            i + 1,
        ),
        !(i < s.len() && s[i].0 == k) ==> cfg_insert(s, k, v) == s.take(i) + seq![(k, v)] + s.skip(
            i,
        ),
    decreases s.len(),
{
    if i == 0 {
        if s.len() == 0 {
            assert(cfg_insert(s, k, v) =~= s.take(0) + seq![(k, v)] + s.skip(0));
        } else {
            lemma_lex_lt_connected(k, s[0].0);
            if k == s[0].0 {
                assert(cfg_insert(s, k, v) == seq![(k, v)] + s.drop_first());
                assert(cfg_insert(s, k, v) =~= s.take(0) + seq![(k, v)] + s.skip(1));
            } else {
                assert(lex_lt(k, s[0].0));
                assert(cfg_insert(s, k, v) =~= s.take(0) + seq![(k, v)] + s.skip(0));
            }
        }
    } else {
        assert(lex_lt(s[0].0, k));
        lemma_lex_lt_connected(k, s[0].0);
        lemma_lex_lt_connected(s[0].0, k);
        assert(!lex_lt(k, s[0].0));
        assert(k != s[0].0);
        let d = s.drop_first();
        assert(forall|j: int| 0 <= j < i - 1 ==> lex_lt(#[trigger] d[j].0, k));
        lemma_cfg_insert_at(d, k, v, i - 1);
        assert(cfg_insert(s, k, v) == seq![s[0]] + cfg_insert(d, k, v));
        assert(d.take(i - 1) =~= s.take(i).drop_first());
        if i < s.len() && s[i].0 == k {
            assert(d[i - 1] == s[i]);
            assert(d.skip(i) =~= s.skip(i + 1));
            assert(cfg_insert(d, k, v) == d.take(i - 1) + seq![(k, v)] + d.skip(i));
            assert(cfg_insert(s, k, v) =~= s.take(i) + seq![(k, v)] + s.skip(i + 1));
        } else {
            assert(d.skip(i - 1) =~= s.skip(i));
            assert(cfg_insert(d, k, v) == d.take(i - 1) + seq![(k, v)] + d.skip(i - 1));
            assert(cfg_insert(s, k, v) =~= s.take(i) + seq![(k, v)] + s.skip(i));
        }
    }
}

/// Inserting the same pairs in either order gives the same sorted list, as
/// long as the names differ; the stored configuration does not depend on
/// insertion order.
pub proof fn lemma_cfg_insert_commutes(
    s: Seq<(Seq<char>, Seq<char>)>,
    k1: Seq<char>,
    v1: Seq<char>,
    k2: Seq<char>,
    v2: Seq<char>,
)
    requires
        k1 != k2,
    ensures
        cfg_insert(cfg_insert(s, k1, v1), k2, v2) == cfg_insert(cfg_insert(s, k2, v2), k1, v1),
    decreases s.len(),
{
    lemma_lex_lt_connected(k1, k2);
    if s.len() == 0 {
        lemma_cfg_insert_one_one(k1, v1, k2, v2);
    } else {
        let h = s[0];
        lemma_lex_lt_connected(k1, h.0);
        lemma_lex_lt_connected(k2, h.0);
        if !lex_lt(k1, h.0) && k1 != h.0 && !lex_lt(k2, h.0) && k2 != h.0 {
            // both insertions recurse below the head
            lemma_cfg_insert_commutes(s.drop_first(), k1, v1, k2, v2);
            let a = cfg_insert(s, k1, v1);
            assert(a == seq![h] + cfg_insert(s.drop_first(), k1, v1));
            assert(a.len() > 0 && a[0] == h);
            assert(a.drop_first() =~= cfg_insert(s.drop_first(), k1, v1));
            let b = cfg_insert(s, k2, v2);
            assert(b == seq![h] + cfg_insert(s.drop_first(), k2, v2));
            assert(b.len() > 0 && b[0] == h);
            assert(b.drop_first() =~= cfg_insert(s.drop_first(), k2, v2));
            assert(cfg_insert(a, k2, v2) == seq![h] + cfg_insert(a.drop_first(), k2, v2));
            assert(cfg_insert(b, k1, v1) == seq![h] + cfg_insert(b.drop_first(), k1, v1));
            assert(cfg_insert(cfg_insert(s, k1, v1), k2, v2) =~= cfg_insert(
                cfg_insert(s, k2, v2),
                k1,
                v1,
            ));
        } else if lex_lt(k1, h.0) || k1 == h.0 {
            lemma_cfg_insert_front_cases(s, k1, v1, k2, v2);
        } else {
            lemma_cfg_insert_front_cases(s, k2, v2, k1, v1);
        }
    }
}

/// Helper: inserting two distinct names into the empty list commutes.
proof fn lemma_cfg_insert_one_one(k1: Seq<char>, v1: Seq<char>, k2: Seq<char>, v2: Seq<char>)
    requires
        k1 != k2,
    ensures
        cfg_insert(seq![(k1, v1)], k2, v2) == cfg_insert(seq![(k2, v2)], k1, v1),
{
    lemma_lex_lt_connected(k1, k2);
    if lex_lt(k2, k1) {
        assert(cfg_insert(seq![(k1, v1)], k2, v2) =~= seq![(k2, v2), (k1, v1)]);
        assert(seq![(k2, v2)].drop_first() =~= Seq::<(Seq<char>, Seq<char>)>::empty());
        assert(cfg_insert(seq![(k2, v2)], k1, v1) =~= seq![(k2, v2)] + cfg_insert(
            Seq::<(Seq<char>, Seq<char>)>::empty(),
            k1,
            v1,
        ));
        assert(cfg_insert(seq![(k2, v2)], k1, v1) =~= seq![(k2, v2), (k1, v1)]);
    } else {
        assert(lex_lt(k1, k2));
        assert(seq![(k1, v1)].drop_first() =~= Seq::<(Seq<char>, Seq<char>)>::empty());
        assert(cfg_insert(seq![(k1, v1)], k2, v2) =~= seq![(k1, v1)] + cfg_insert(
            Seq::<(Seq<char>, Seq<char>)>::empty(),
            k2,
            v2,
        ));
        assert(cfg_insert(seq![(k1, v1)], k2, v2) =~= seq![(k1, v1), (k2, v2)]);
        assert(cfg_insert(seq![(k2, v2)], k1, v1) =~= seq![(k1, v1), (k2, v2)]);
    }
}

/// Helper: when the first of two distinct names stays at or before the head,
/// the two insertion orders agree.
proof fn lemma_cfg_insert_front_cases(
    s: Seq<(Seq<char>, Seq<char>)>,
    k1: Seq<char>,
    v1: Seq<char>,
    k2: Seq<char>,
    v2: Seq<char>,
)
    requires
        k1 != k2,
        s.len() > 0,
        lex_lt(k1, s[0].0) || k1 == s[0].0,
    ensures
        cfg_insert(cfg_insert(s, k1, v1), k2, v2) == cfg_insert(cfg_insert(s, k2, v2), k1, v1),
{
    let h = s[0];
    lemma_lex_lt_connected(k1, k2);
    lemma_lex_lt_connected(k1, h.0);
    lemma_lex_lt_connected(k2, h.0);
    if k1 == h.0 {
        // replacement at the head
        let a = cfg_insert(s, k1, v1);
        assert(a == seq![(k1, v1)] + s.drop_first());
        assert(a.len() > 0 && a[0] == (k1, v1));
        assert(a.drop_first() =~= s.drop_first());
        if lex_lt(k2, k1) {
            assert(cfg_insert(a, k2, v2) == seq![(k2, v2)] + a);
            let b = cfg_insert(s, k2, v2);
            assert(b == seq![(k2, v2)] + s);
            assert(b.len() > 0 && b[0] == (k2, v2));
            assert(!lex_lt(k1, k2) && k1 != k2);
            assert(b.drop_first() =~= s);
            assert(cfg_insert(b, k1, v1) == seq![(k2, v2)] + cfg_insert(s, k1, v1));
            assert(cfg_insert(cfg_insert(s, k1, v1), k2, v2) =~= cfg_insert(
                cfg_insert(s, k2, v2),
                k1,
                v1,
            ));
        } else {
            assert(lex_lt(k1, k2));
            assert(cfg_insert(a, k2, v2) == seq![(k1, v1)] + cfg_insert(a.drop_first(), k2, v2));
            let b = cfg_insert(s, k2, v2);
            assert(lex_lt(h.0, k2));
            assert(!lex_lt(k2, h.0) && k2 != h.0);
            assert(b == seq![h] + cfg_insert(s.drop_first(), k2, v2));
            assert(b.len() > 0 && b[0] == h);
            assert(b.drop_first() =~= cfg_insert(s.drop_first(), k2, v2));
            assert(cfg_insert(b, k1, v1) == seq![(k1, v1)] + b.drop_first());
            assert(cfg_insert(cfg_insert(s, k1, v1), k2, v2) =~= cfg_insert(
                cfg_insert(s, k2, v2),
                k1,
                v1,
            ));
        }
    } else {
        // k1 goes in front of the head
        assert(lex_lt(k1, h.0));
        let a = cfg_insert(s, k1, v1);
        assert(a == seq![(k1, v1)] + s);
        assert(a.len() > 0 && a[0] == (k1, v1));
        assert(a.drop_first() =~= s);
        if lex_lt(k2, k1) {
            assert(cfg_insert(a, k2, v2) == seq![(k2, v2)] + a);
            lemma_lex_lt_trans(k2, k1, h.0);
            let b = cfg_insert(s, k2, v2);
            assert(b == seq![(k2, v2)] + s);
            assert(b.len() > 0 && b[0] == (k2, v2));
            assert(!lex_lt(k1, k2) && k1 != k2);
            assert(b.drop_first() =~= s);
            assert(cfg_insert(b, k1, v1) == seq![(k2, v2)] + cfg_insert(s, k1, v1));
            assert(cfg_insert(cfg_insert(s, k1, v1), k2, v2) =~= cfg_insert(
                cfg_insert(s, k2, v2),
                k1,
                v1,
            ));
        } else {
            assert(lex_lt(k1, k2));
            assert(cfg_insert(a, k2, v2) == seq![(k1, v1)] + cfg_insert(s, k2, v2));
            let b = cfg_insert(s, k2, v2);
            if lex_lt(k2, h.0) {
                assert(b == seq![(k2, v2)] + s);
                assert(b.len() > 0 && b[0] == (k2, v2));
                assert(b.drop_first() =~= s);
                assert(cfg_insert(b, k1, v1) == seq![(k1, v1)] + b);
                assert(cfg_insert(cfg_insert(s, k1, v1), k2, v2) =~= cfg_insert(
                    cfg_insert(s, k2, v2),
                    k1,
                    v1,
                ));
            } else if k2 == h.0 {
                assert(b == seq![(k2, v2)] + s.drop_first());
                assert(b.len() > 0 && b[0] == (k2, v2));
                assert(cfg_insert(b, k1, v1) == seq![(k1, v1)] + b);
                assert(cfg_insert(cfg_insert(s, k1, v1), k2, v2) =~= cfg_insert(
                    cfg_insert(s, k2, v2),
                    k1,
                    v1,
                ));
            } else {
                assert(b == seq![h] + cfg_insert(s.drop_first(), k2, v2));
                assert(b.len() > 0 && b[0] == h);
                assert(b.drop_first() =~= cfg_insert(s.drop_first(), k2, v2));
                assert(cfg_insert(b, k1, v1) == seq![(k1, v1)] + b);
                assert(cfg_insert(cfg_insert(s, k1, v1), k2, v2) =~= cfg_insert(
                    cfg_insert(s, k2, v2),
                    k1,
                    v1,
                ));
            }
        }
    }
}

/// The immutable engine configuration: language, resolution, page
/// segmentation mode, engine mode, and optional named engine variables.
/// Construction never fails and the value is never mutated by an invocation;
/// callers may clone one per invocation.
#[derive(Clone)]
pub struct Args {
    pub lang: String,
    pub dpi: i32,
    pub psm: i32,
    pub oem: i32,
    pub config_variables: Vec<(String, String)>,
}

impl Args {
    /// The stored configuration pairs, by view.
    pub open spec fn cfg(&self) -> Seq<(Seq<char>, Seq<char>)> {
        self.config_variables@.map_values(|p: (String, String)| (p.0@, p.1@))
    }

    /// The configuration list is strictly sorted by name.
    pub open spec fn wf(&self) -> bool {
        cfg_sorted(self.cfg())
    }

    /// The fixed defaults: language "eng", 150 dpi, page segmentation mode 3,
    /// engine mode 3, and no extra variables.
    pub fn new() -> (r: Args)
        ensures
            r.wf(),
            r.lang@ == "eng"@,
            r.dpi == 150,
            r.psm == 3,
            r.oem == 3,
            r.cfg() == Seq::<(Seq<char>, Seq<char>)>::empty(),
    {
        let r = Args {
            lang: String::from_str("eng"),
            dpi: 150,
            psm: 3,
            oem: 3,
            config_variables: Vec::new(),
        };
        proof {
            assert(r.cfg() =~= Seq::<(Seq<char>, Seq<char>)>::empty());
        }
        r
    }

    /// The stored configuration pairs in their sorted order.
    pub fn config_variables(&self) -> (r: &Vec<(String, String)>)
        ensures
            r@.map_values(|p: (String, String)| (p.0@, p.1@)) == self.cfg(),
    {
        &self.config_variables
    }

    /// Sets one engine variable, replacing any earlier value under the same
    /// name; the stored order stays sorted, so it does not depend on the
    /// order in which variables were set.
    pub fn set_config_variable(&mut self, key: String, value: String)
        requires
            old(self).wf(),
        ensures
            final(self).wf(),
            final(self).cfg() == cfg_insert(old(self).cfg(), key@, value@),
            final(self).lang == old(self).lang,
            final(self).dpi == old(self).dpi,
            final(self).psm == old(self).psm,
            final(self).oem == old(self).oem,
    {
        let ghost s = self.cfg();
        let n = self.config_variables.len();
        let mut i: usize = 0;
        while i < n && str_lt(self.config_variables[i].0.as_str(), key.as_str())
            invariant
                n == self.config_variables.len(),
                s == self.cfg(),
                0 <= i <= n,
                forall|j: int| 0 <= j < i ==> lex_lt(#[trigger] s[j].0, key@),
            decreases n - i,
        {
            proof {
                assert(s[i as int].0 == self.config_variables@[i as int].0@);
            }
            i += 1;
        }
        proof {
            if i < n {
                assert(s[i as int].0 == self.config_variables@[i as int].0@);
            }
            lemma_cfg_insert_at(s, key@, value@, i as int);
        }
        let replace = i < n && str_eq(key.as_str(), self.config_variables[i].0.as_str());
        if replace {
            self.config_variables.set(i, (key, value));
            proof {
                assert(self.cfg() =~= s.take(i as int) + seq![
                    (self.config_variables@[i as int].0@, self.config_variables@[i as int].1@),
                ] + s.skip(i as int + 1));
                assert(self.cfg() == cfg_insert(s, self.config_variables@[i as int].0@, self.config_variables@[i as int].1@));
            }
        } else {
            self.config_variables.insert(i, (key, value));
            proof {
                assert(self.cfg() =~= s.take(i as int) + seq![
                    (self.config_variables@[i as int].0@, self.config_variables@[i as int].1@),
                ] + s.skip(i as int));
            }
        }
        proof {
            let f = self.cfg();
            assert(f == cfg_insert(s, key@, value@));
            assert forall|a: int, b: int| 0 <= a < b < f.len() implies lex_lt(
                #[trigger] f[a].0,
                #[trigger] f[b].0,
            ) by {
                lemma_cfg_sorted_after_insert(s, key@, value@, i as int, replace, a, b);
            }
        }
    }
}

/// Helper for `set_config_variable`: the spliced list stays strictly sorted.
proof fn lemma_cfg_sorted_after_insert(
    s: Seq<(Seq<char>, Seq<char>)>,
    k: Seq<char>,
    v: Seq<char>,
    i: int,
    replace: bool,
    a: int,
    b: int,
)
    requires
        cfg_sorted(s),
        0 <= i <= s.len(),
        forall|j: int| 0 <= j < i ==> lex_lt(#[trigger] s[j].0, k),
        i < s.len() ==> !lex_lt(s[i].0, k),
        replace ==> i < s.len() && s[i].0 == k,
        !replace ==> !(i < s.len() && s[i].0 == k),
        0 <= a < b < cfg_insert(s, k, v).len(),
    ensures
        lex_lt(cfg_insert(s, k, v)[a].0, cfg_insert(s, k, v)[b].0),
{
    lemma_cfg_insert_at(s, k, v, i);
    let f = cfg_insert(s, k, v);
    if replace {
        assert(f == s.take(i) + seq![(k, v)] + s.skip(i + 1));
        assert(f.len() == s.len());
        if b < i {
            assert(f[a] == s[a] && f[b] == s[b]);
        } else if b == i {
            assert(f[a] == s[a] && f[b].0 == k);
        } else {
            assert(f[b] == s[b]);
            if a < i {
                assert(f[a] == s[a]);
            } else if a == i {
                assert(f[a].0 == k && k == s[i].0);
            }
        }
    } else {
        assert(f == s.take(i) + seq![(k, v)] + s.skip(i));
        assert(f.len() == s.len() + 1);
        if i < s.len() {
            lemma_lex_lt_connected(k, s[i].0);
            assert(lex_lt(k, s[i].0));
        }
        if b < i {
            assert(f[a] == s[a] && f[b] == s[b]);
        } else if b == i {
            assert(f[a] == s[a] && f[b].0 == k);
        } else {
            assert(f[b] == s[b - 1]);
            assert(i <= b - 1 < s.len());
            if a < i {
                assert(f[a] == s[a]);
                if i <= b - 1 && i < s.len() && a < i {
                    if b - 1 == i {
                        assert(lex_lt(s[a].0, k));
                        lemma_lex_lt_trans(s[a].0, k, s[i].0);
                    }
                }
            } else if a == i {
                assert(f[a].0 == k);
                assert(lex_lt(k, s[i].0));
                if b - 1 > i {
                    lemma_lex_lt_trans(k, s[i].0, s[b - 1].0);
                }
            } else {
                assert(f[a] == s[a - 1]);
            }
        }
    }
}

impl Default for Args {
    /// The default engine arguments, equal to `Args::new()`.
    fn default() -> (r: Args)
        ensures
            r.wf(),
            r.lang@ == "eng"@,
            r.dpi == 150,
            r.psm == 3,
            r.oem == 3,
            r.cfg() == Seq::<(Seq<char>, Seq<char>)>::empty(),
    {
        Args::new()
    }
}

} // verus!
