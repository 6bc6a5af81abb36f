use vstd::prelude::*;
use vstd::arithmetic::div_mod::{lemma_fundamental_div_mod, lemma_fundamental_div_mod_converse};

verus! {

/// One color role: its name and its display color as an RGB triple.
pub struct ColorEntry {
    pub name: String,
    pub red: u8,
    pub green: u8,
    pub blue: u8,
}

impl ColorEntry {
    /// A copy of the entry, field for field.
    pub fn duplicate(&self) -> (r: ColorEntry)
        ensures
            r.name@ == self.name@,
            r.red == self.red,
            r.green == self.green,
            r.blue == self.blue,
    {
        ColorEntry { name: self.name.clone(), red: self.red, green: self.green, blue: self.blue }
    }

    /// The color packed as `0xRRGGBB`.
    pub fn rgb(&self) -> (r: u32)
        ensures
            r == self.red as int * 65536 + self.green as int * 256 + self.blue as int,
    {
        (self.red as u32) * 65536 + (self.green as u32) * 256 + (self.blue as u32)
    }
}

/// Whether some string of `names` reads `n`.
pub open spec fn holds_name(names: Seq<String>, n: Seq<char>) -> bool {
    exists|k: int| 0 <= k < names.len() && (#[trigger] names[k])@ == n
}

/// The configured color roles, in the order they were given.
pub struct ColorCatalog {
    pub entries: Vec<ColorEntry>,
}

impl ColorCatalog {
    /// No two entries share a name.
    pub open spec fn wf(&self) -> bool {
        forall|i: int, j: int|
            0 <= i < j < self.entries@.len() ==> (#[trigger] self.entries@[i]).name@
                != (#[trigger] self.entries@[j]).name@
    }

    /// `n` is the name of a color role.
    pub open spec fn has_name(&self, n: Seq<char>) -> bool {
        exists|i: int| 0 <= i < self.entries@.len() && (#[trigger] self.entries@[i]).name@ == n
    }

    /// Every name in `roles` is the name of a color role (true of no roles at all).
    pub open spec fn covers(&self, roles: Seq<String>) -> bool {
        forall|k: int| 0 <= k < roles.len() ==> self.has_name((#[trigger] roles[k])@)
    }

    /// Builds a catalog from its entries; `None` where two entries share a name.
    pub fn new(entries: Vec<ColorEntry>) -> (r: Option<ColorCatalog>)
        ensures
            match r {
                Some(c) => c.entries@ == entries@ && c.wf(),
                None => exists|i: int, j: int|
                    0 <= i < j < entries@.len() && entries@[i].name@ == entries@[j].name@,
            },
    {
        let n = entries.len();
        let mut j: usize = 0;
        while j < n
            invariant
                n == entries@.len(),
                j <= n,
                forall|a: int, b: int|
                    0 <= a < b < j ==> (#[trigger] entries@[a]).name@
                        != (#[trigger] entries@[b]).name@,
            decreases n - j,
        {
            let mut i: usize = 0;
            while i < j
                invariant
                    n == entries@.len(),
                    i <= j < n,
                    forall|a: int| 0 <= a < i ==> entries@[a].name@ != entries@[j as int].name@,
                decreases j - i,
            {
                if entries[i].name == entries[j].name {
                    return None;
                }
                i = i + 1;
            }
            j = j + 1;
        }
        Some(ColorCatalog { entries })
    }

    /// Number of color roles.
    pub fn len(&self) -> (r: usize)
        ensures
            r == self.entries@.len(),
    {
        self.entries.len()
    }

    /// Whether `name` is the name of a color role.
    pub fn contains_name(&self, name: &String) -> (r: bool)
        ensures
            r == self.has_name(name@),
    {
        let mut i: usize = 0;
        while i < self.entries.len()
            invariant
                i <= self.entries@.len(),
                forall|a: int| 0 <= a < i ==> self.entries@[a].name@ != name@,
            decreases self.entries@.len() - i,
        {
            if self.entries[i].name == *name {
                return true;
            }
            i = i + 1;
        }
        false
    }

    /// Whether every role in `roles` is a color role, so that the member holds
    /// no role given by hand (true when `roles` is empty).
    pub fn only_colors(&self, roles: &Vec<String>) -> (r: bool)
        ensures
            r == self.covers(roles@),
    {
        let mut k: usize = 0;
        while k < roles.len()
            invariant
                k <= roles@.len(),
                forall|a: int| 0 <= a < k ==> self.has_name(#[trigger] roles@[a]@),
            decreases roles@.len() - k,
        {
            if !self.contains_name(&roles[k]) {
                return false;
            }
            k = k + 1;
        }
        true
    }

    /// The color given to a new member for the random number `draw`: entry
    /// `draw % len`, so each entry comes from the same share of draws.
    pub fn pick_color(&self, draw: u64) -> (r: Option<usize>)
        ensures
            self.entries@.len() == 0 ==> r is None,
            self.entries@.len() > 0 ==> r is Some && r->0 == pick_index(self.entries@.len(), draw as int)
                && r->0 < self.entries@.len(),
    {
        let n = self.entries.len();
        if n == 0 {
            None
        } else {
            Some(((draw as u128) % (n as u128)) as usize)
        }
    }
}

/// The entry that the draw `d` selects among `n` entries.
pub open spec fn pick_index(n: nat, d: int) -> int {
    d % (n as int)
}

/// Some draw among `base .. base + n` selects entry `i`.
pub open spec fn picked_in_window(n: nat, base: int, i: int) -> bool {
    exists|d: int| base <= d < base + n && #[trigger] pick_index(n, d) == i
}

/// The pick is uniform: among any `n` consecutive draws, each of the `n`
/// entries is selected by exactly one draw.
pub proof fn lemma_pick_uniform(n: nat, base: int)
    requires
        n > 0,
    ensures
        forall|d: int| 0 <= #[trigger] pick_index(n, d) < n,
        forall|i: int| 0 <= i < n ==> #[trigger] picked_in_window(n, base, i),
        forall|d1: int, d2: int|
            base <= d1 < base + n && base <= d2 < base + n && #[trigger] pick_index(n, d1)
                == #[trigger] pick_index(n, d2) ==> d1 == d2,
{
    let m = n as int;
    assert forall|d: int| 0 <= #[trigger] pick_index(n, d) < n by {
        lemma_fundamental_div_mod(d, m);
    }
    lemma_fundamental_div_mod(base, m);
    let q = base / m;
    let r0 = base % m;
    assert forall|i: int| 0 <= i < n implies #[trigger] picked_in_window(n, base, i) by {
        if i >= r0 {
            let d = m * q + i;
            lemma_fundamental_div_mod_converse(d, m, q, i);
            assert(base <= d < base + n);
            assert(pick_index(n, d) == i);
        } else {
            let d = m * (q + 1) + i;
            assert(m * (q + 1) == m * q + m) by (nonlinear_arith);
            lemma_fundamental_div_mod_converse(d, m, q + 1, i);
            assert(base <= d < base + n);
            assert(pick_index(n, d) == i);
        }
    }
    assert forall|d1: int, d2: int|
        base <= d1 < base + n && base <= d2 < base + n && #[trigger] pick_index(n, d1)
            == #[trigger] pick_index(n, d2) implies d1 == d2 by {
        lemma_fundamental_div_mod(d1, m);
        lemma_fundamental_div_mod(d2, m);
        let q1 = d1 / m;
        let q2 = d2 / m;
        assert(d2 - d1 == m * (q2 - q1)) by (nonlinear_arith)
            requires
                d1 == m * q1 + d1 % m,
                d2 == m * q2 + d2 % m,
                d1 % m == d2 % m,
        ;
        if q2 > q1 {
            assert(m * (q2 - q1) >= m) by (nonlinear_arith)
                requires
                    q2 - q1 >= 1,
                    m > 0,
            ;
        } else if q2 < q1 {
            assert(m * (q1 - q2) >= m) by (nonlinear_arith)
                requires
                    q1 - q2 >= 1,
                    m > 0,
            ;
            assert(m * (q1 - q2) == -(m * (q2 - q1))) by (nonlinear_arith);
        }
    }
}

} // verus!
