//! Column-safety validation: decides whether an identifier may appear in
//! generated SQL. Explicit allows win over blocks; a structural check rejects
//! malformed identifiers before the block patterns are consulted.

use crate::text::{
    alnum_char, contains_chars, contains_seq, eq_chars, is_alnum_char, lower_char, lower_chars,
    str_to_chars,
};
use vstd::prelude::*;
use vstd::string::StringExecFns;

verus! {

/// Protects generated SQL against system-table access and malformed
/// identifiers. Holds case-sensitive substring block patterns, substring
/// allow patterns that override them, and an exact-match allow-list of
/// system column names.
pub struct ColumnProtection {
    blocked_patterns: Vec<String>,
    allowed_patterns: Vec<String>,
    allowed_system_columns: Vec<String>,
}

impl ColumnProtection {
    /// The block patterns, as character sequences.
    pub closed spec fn blocked(&self) -> Seq<Seq<char>> {
        self.blocked_patterns@.map_values(|s: String| s@)
    }

    /// The allow patterns, as character sequences.
    pub closed spec fn allowed(&self) -> Seq<Seq<char>> {
        self.allowed_patterns@.map_values(|s: String| s@)
    }

    /// The exactly-allowed system column names, as character sequences.
    pub closed spec fn allowed_system(&self) -> Seq<Seq<char>> {
        self.allowed_system_columns@.map_values(|s: String| s@)
    }

    /// A validator with no patterns at all: everything structurally sound is
    /// safe.
    pub fn new() -> (r: Self)
        ensures
            r.blocked() == Seq::<Seq<char>>::empty(),
            r.allowed() == Seq::<Seq<char>>::empty(),
            r.allowed_system() == Seq::<Seq<char>>::empty(),
    {
        let r = ColumnProtection {
            blocked_patterns: Vec::new(),
            allowed_patterns: Vec::new(),
            allowed_system_columns: Vec::new(),
        };
        proof {
            assert(r.blocked() =~= Seq::<Seq<char>>::empty());
            assert(r.allowed() =~= Seq::<Seq<char>>::empty());
            assert(r.allowed_system() =~= Seq::<Seq<char>>::empty());
        }
        r
    }

    /// The block patterns installed by default: system schemas, system
    /// tables and row-metadata column names of the backend.
    pub open spec fn default_blocked() -> Seq<Seq<char>> {
        seq![
            "pg_"@,
            "information_schema."@,
            "oid"@,
            "tableoid"@,
            "xmin"@,
            "xmax"@,
            "cmin"@,
            "cmax"@,
            "ctid"@,
            "pg_catalog"@,
            "pg_toast"@,
            "pg_temp"@,
            "pg_internal"@,
        ]
    }

    /// Installs the default block patterns.
    pub fn add_default_blocks(&mut self)
        ensures
            final(self).blocked() == old(self).blocked() + Self::default_blocked(),
            final(self).allowed() == old(self).allowed(),
            final(self).allowed_system() == old(self).allowed_system(),
    {
        let ghost before = self.blocked();
        self.push_block("pg_");
        self.push_block("information_schema.");
        self.push_block("oid");
        self.push_block("tableoid");
        self.push_block("xmin");
        self.push_block("xmax");
        self.push_block("cmin");
        self.push_block("cmax");
        self.push_block("ctid");
        self.push_block("pg_catalog");
        self.push_block("pg_toast");
        self.push_block("pg_temp");
        self.push_block("pg_internal");
        proof {
            assert(self.blocked() =~= before + Self::default_blocked());
        }
    }

    fn push_block(&mut self, pattern: &str)
        ensures
            final(self).blocked() == old(self).blocked().push(pattern@),
            final(self).allowed() == old(self).allowed(),
            final(self).allowed_system() == old(self).allowed_system(),
    {
        let ghost before = self.blocked();
        self.blocked_patterns.push(String::from_str(pattern));
        proof {
            assert(self.blocked() =~= before.push(pattern@));
        }
    }

    /// Adds one block pattern: identifiers containing it (case-insensitively)
    /// become unsafe unless an allow rule wins.
    pub fn block_pattern(&mut self, pattern: String)
        ensures
            final(self).blocked() == old(self).blocked().push(pattern@),
            final(self).allowed() == old(self).allowed(),
            final(self).allowed_system() == old(self).allowed_system(),
    {
        let ghost before = self.blocked();
        let ghost p = pattern@;
        self.blocked_patterns.push(pattern);
        proof {
            assert(self.blocked() =~= before.push(p));
        }
    }

    /// Adds one allow pattern: identifiers containing it are always safe.
    pub fn allow_pattern(&mut self, pattern: String)
        ensures
            final(self).allowed() == old(self).allowed().push(pattern@),
            final(self).blocked() == old(self).blocked(),
            final(self).allowed_system() == old(self).allowed_system(),
    {
        let ghost before = self.allowed();
        let ghost p = pattern@;
        self.allowed_patterns.push(pattern);
        proof {
            assert(self.allowed() =~= before.push(p));
        }
    }

    /// Adds system column names that are allowed exactly as written.
    pub fn allow_system_columns(&mut self, columns: Vec<String>)
        ensures
            final(self).allowed_system() == old(self).allowed_system() + columns@.map_values(
                |s: String| s@,
            ),
            final(self).blocked() == old(self).blocked(),
            final(self).allowed() == old(self).allowed(),
    {
        let ghost vw = |s: String| s@;
        let ghost cols = columns@;
        let mut columns = columns;
        let mut i: usize = 0;
        while i < columns.len()
            invariant
                i <= cols.len(),
                vw == (|s: String| s@),
                columns@ == cols,
                self.allowed_system() == old(self).allowed_system() + cols.map_values(
                    vw,
                ).subrange(0, i as int),
                self.blocked() == old(self).blocked(),
                self.allowed() == old(self).allowed(),
            decreases cols.len() - i,
        {
            let ghost before = self.allowed_system();
            let c = columns[i].clone();
            proof {
                assert(c@ == cols.map_values(vw)[i as int]);
            }
            self.allowed_system_columns.push(c);
            proof {
                assert(self.allowed_system() =~= before.push(cols.map_values(vw)[i as int]));
                assert(self.allowed_system() =~= old(self).allowed_system() + cols.map_values(
                    vw,
                ).subrange(0, i + 1 as int));
            }
            i += 1;
        }
        proof {
            assert(cols.map_values(vw).subrange(0, cols.len() as int) =~= cols.map_values(vw));
        }
    }

    /// An identifier character: ASCII letter or digit, underscore, or dot.
    pub open spec fn is_ident_char(c: char) -> bool {
        is_alnum_char(c) || c == '_' || c == '.'
    }

    /// The structural shape of a safe identifier: non-empty, only identifier
    /// characters, no doubled dot, no leading or trailing dot.
    pub open spec fn structurally_sound(s: Seq<char>) -> bool {
        &&& s.len() > 0
        &&& forall|i: int| 0 <= i < s.len() ==> Self::is_ident_char(#[trigger] s[i])
        &&& !contains_seq(s, ".."@)
        &&& s[0] != '.'
        &&& s.last() != '.'
    }

    /// What `is_safe` decides: explicit allows first, then the structural
    /// check, then the case-insensitive block patterns.
    pub open spec fn is_safe_spec(&self, s: Seq<char>) -> bool {
        if self.allowed_system().contains(s) {
            true
        } else if exists|i: int|
            0 <= i < self.allowed().len() && contains_seq(s, #[trigger] self.allowed()[i]) {
            true
        } else if !Self::structurally_sound(s) {
            false
        } else {
            let lower = s.map_values(|c: char| lower_char(c));
            !(exists|i: int|
                0 <= i < self.blocked().len() && contains_seq(lower, #[trigger] self.blocked()[i]))
        }
    }

    /// Decides whether an identifier may appear in generated SQL.
    pub fn is_safe(&self, column_name: &str) -> (r: bool)
        ensures
            r == self.is_safe_spec(column_name@),
    {
        let s = str_to_chars(column_name);

        let mut i: usize = 0;
        while i < self.allowed_system_columns.len()
            invariant
                i <= self.allowed_system().len(),
                s@ == column_name@,
                forall|j: int| 0 <= j < i ==> self.allowed_system()[j] != s@,
            decreases self.allowed_system().len() - i,
        {
            let col = str_to_chars(self.allowed_system_columns[i].as_str());
            if eq_chars(&s, &col) {
                assert(self.allowed_system()[i as int] == s@);
                return true;
            }
            i += 1;
        }
        assert(!self.allowed_system().contains(s@)) by {
            if self.allowed_system().contains(s@) {
                let j = choose|j: int|
                    0 <= j < self.allowed_system().len() && self.allowed_system()[j] == s@;
            }
        }

        let mut i: usize = 0;
        while i < self.allowed_patterns.len()
            invariant
                i <= self.allowed().len(),
                s@ == column_name@,
                !self.allowed_system().contains(s@),
                forall|j: int| 0 <= j < i ==> !contains_seq(s@, #[trigger] self.allowed()[j]),
            decreases self.allowed().len() - i,
        {
            let pat = str_to_chars(self.allowed_patterns[i].as_str());
            if contains_chars(&s, &pat) {
                assert(contains_seq(s@, self.allowed()[i as int]));
                return true;
            }
            i += 1;
        }

        if !self.check_structure(&s) {
            return false;
        }

        let lower = lower_chars(&s);
        let mut i: usize = 0;
        while i < self.blocked_patterns.len()
            invariant
                i <= self.blocked().len(),
                s@ == column_name@,
                lower@ == s@.map_values(|c: char| lower_char(c)),
                !self.allowed_system().contains(s@),
                forall|j: int|
                    0 <= j < self.allowed().len() ==> !contains_seq(
                        s@,
                        #[trigger] self.allowed()[j],
                    ),
                Self::structurally_sound(s@),
                forall|j: int| 0 <= j < i ==> !contains_seq(lower@, #[trigger] self.blocked()[j]),
            decreases self.blocked().len() - i,
        {
            let pat = str_to_chars(self.blocked_patterns[i].as_str());
            if contains_chars(&lower, &pat) {
                assert(contains_seq(lower@, self.blocked()[i as int]));
                return false;
            }
            i += 1;
        }
        true
    }

    /// Executable structural check.
    fn check_structure(&self, s: &Vec<char>) -> (r: bool)
        requires
            !self.allowed_system().contains(s@),
            forall|j: int|
                0 <= j < self.allowed().len() ==> !contains_seq(s@, #[trigger] self.allowed()[j]),
        ensures
            r == Self::structurally_sound(s@),
    {
        if s.len() == 0 {
            return false;
        }
        let mut i: usize = 0;
        while i < s.len()
            invariant
                i <= s@.len(),
                forall|j: int| 0 <= j < i ==> Self::is_ident_char(#[trigger] s@[j]),
            decreases s@.len() - i,
        {
            let c = s[i];
            if !(alnum_char(c) || c == '_' || c == '.') {
                return false;
            }
            i += 1;
        }
        let mut dd: Vec<char> = Vec::new();
        dd.push('.');
        dd.push('.');
        proof {
            reveal_strlit("..");
            assert(dd@ =~= ".."@);
        }
        if contains_chars(s, &dd) {
            return false;
        }
        if s[0] == '.' {
            return false;
        }
        if s[s.len() - 1] == '.' {
            return false;
        }
        true
    }
}

/// Allow rules always win: an identifier on the system-column allow-list, or
/// containing an allow pattern, is safe whatever the block patterns say.
pub proof fn lemma_allow_wins(p: ColumnProtection, c: Seq<char>)
    requires
        p.allowed_system().contains(c) || exists|i: int|
            0 <= i < p.allowed().len() && contains_seq(c, #[trigger] p.allowed()[i]),
    ensures
        p.is_safe_spec(c),
{
}

/// Allow-listing system columns flips exactly those columns to safe and
/// leaves every other identifier's verdict unchanged.
pub proof fn lemma_allow_system_columns_effect(
    before: ColumnProtection,
    after: ColumnProtection,
    cols: Seq<Seq<char>>,
    c: Seq<char>,
)
    requires
        after.allowed_system() == before.allowed_system() + cols,
        after.blocked() == before.blocked(),
        after.allowed() == before.allowed(),
    ensures
        cols.contains(c) ==> after.is_safe_spec(c),
        !cols.contains(c) && !before.allowed_system().contains(c) ==> after.is_safe_spec(c)
            == before.is_safe_spec(c),
{
    if cols.contains(c) {
        let i = choose|i: int| 0 <= i < cols.len() && cols[i] == c;
        assert(after.allowed_system()[before.allowed_system().len() + i] == c);
        assert(after.allowed_system().contains(c));
    } else if !before.allowed_system().contains(c) {
        assert(!after.allowed_system().contains(c)) by {
            if after.allowed_system().contains(c) {
                let i = choose|i: int|
                    0 <= i < after.allowed_system().len() && after.allowed_system()[i] == c;
                if i < before.allowed_system().len() {
                    assert(before.allowed_system()[i] == c);
                } else {
                    assert(cols[i - before.allowed_system().len()] == c);
                }
            }
        }
    }
}

/// What the default validator accepts: a structurally sound identifier whose
/// lowercased form contains none of the default block patterns.
pub open spec fn default_protection_safe(c: Seq<char>) -> bool {
    ColumnProtection::structurally_sound(c) && !(exists|i: int|
        0 <= i < ColumnProtection::default_blocked().len() && contains_seq(
            c.map_values(|ch: char| lower_char(ch)),
            #[trigger] ColumnProtection::default_blocked()[i],
        ))
}

/// A validator carrying exactly the default sets decides as
/// `default_protection_safe` does.
pub proof fn lemma_default_protection_safe(p: ColumnProtection, c: Seq<char>)
    requires
        p.blocked() == ColumnProtection::default_blocked(),
        p.allowed() == Seq::<Seq<char>>::empty(),
        p.allowed_system() == Seq::<Seq<char>>::empty(),
    ensures
        p.is_safe_spec(c) == default_protection_safe(c),
{
}

impl Default for ColumnProtection {
    /// The default validator blocks the backend's system schemas and
    /// row-metadata columns, and allows nothing explicitly.
    fn default() -> (r: Self)
        ensures
            r.blocked() == ColumnProtection::default_blocked(),
            r.allowed() == Seq::<Seq<char>>::empty(),
            r.allowed_system() == Seq::<Seq<char>>::empty(),
    {
        let mut protection = ColumnProtection::new();
        protection.add_default_blocks();
        proof {
            assert(Seq::<Seq<char>>::empty() + ColumnProtection::default_blocked()
                =~= ColumnProtection::default_blocked());
        }
        protection
    }
}

} // verus!
