//! Unix-style permission words: a nine-character `rwxrwxrwx` codec over a
//! `u32` mode value, split into the three owner groups.

use vstd::prelude::*;
use vstd::string::StrSliceExecFns;
use vstd::string::StringExecFns;

verus! {

/// Which permission group of a mode word a bit belongs to.
#[derive(Clone, Copy, PartialEq, Eq)]
pub enum Owner {
    User,
    Group,
    Other,
}

/// One permission bit within a group.
#[derive(Clone, Copy, PartialEq, Eq)]
pub enum Permission {
    Read,
    Write,
    Execute,
}

/// Multiplier that places a group's octal digit inside the mode word.
pub open spec fn spec_owner_weight(o: Owner) -> u32 {
    match o {
        Owner::User => 64,
        Owner::Group => 8,
        Owner::Other => 1,
    }
}

/// Value of one permission bit inside its octal digit.
pub open spec fn spec_perm_value(p: Permission) -> u32 {
    match p {
        Permission::Read => 4,
        Permission::Write => 2,
        Permission::Execute => 1,
    }
}

fn owner_weight(o: Owner) -> (r: u32)
    ensures
        r == spec_owner_weight(o),
{
    match o {
        Owner::User => 64,
        Owner::Group => 8,
        Owner::Other => 1,
    }
}

fn perm_value(p: Permission) -> (r: u32)
    ensures
        r == spec_perm_value(p),
{
    match p {
        Permission::Read => 4,
        Permission::Write => 2,
        Permission::Execute => 1,
    }
}

/// A mode word; the plain `u32` is public so that a caller can read the
/// encoded value directly.
#[derive(Clone, Copy, PartialEq, Eq, Structural, Debug)]
pub struct Mode(pub u32);

/// The character the `rwx` template expects at position `i` when the bit is
/// set.
pub open spec fn spec_rwx_template(i: int) -> char {
    if i % 3 == 0 {
        'r'
    } else if i % 3 == 1 {
        'w'
    } else {
        'x'
    }
}

/// A nine-character permission string is valid when each position holds
/// either the template character of that position or `-`.
pub open spec fn spec_valid_rwx(s: Seq<char>) -> bool {
    s.len() == 9 && (forall|i: int|
        0 <= i < 9 ==> s[i] == spec_rwx_template(i) || s[i] == '-')
}

/// The mode-word weight of the bit at string position `i`.
pub open spec fn spec_bit_weight(i: int) -> int {
    (if i / 3 == 0 {
        64int
    } else if i / 3 == 1 {
        8int
    } else {
        1int
    }) * (if i % 3 == 0 {
        4int
    } else if i % 3 == 1 {
        2int
    } else {
        1int
    })
}

/// The mode value encoded by the first `n` characters of a permission
/// string: the sum of the weights of the set bits.
pub open spec fn spec_mode_value(s: Seq<char>, n: int) -> int
    decreases n,
{
    if n <= 0 {
        0
    } else {
        spec_mode_value(s, n - 1) + (if s[n - 1] == '-' {
            0
        } else {
            spec_bit_weight(n - 1)
        })
    }
}

/// Sum of all bit weights up to position `n`; bounds every partial mode
/// value.
pub open spec fn spec_weight_sum(n: int) -> int
    decreases n,
{
    if n <= 0 {
        0
    } else {
        spec_weight_sum(n - 1) + spec_bit_weight(n - 1)
    }
}

proof fn lemma_mode_value_bound(s: Seq<char>, n: int)
    requires
        0 <= n <= 9,
    ensures
        0 <= spec_mode_value(s, n) <= spec_weight_sum(n),
    decreases n,
{
    if n > 0 {
        lemma_mode_value_bound(s, n - 1);
    }
}

proof fn lemma_weight_sum_total()
    ensures
        spec_weight_sum(9) == 511,
{
    reveal_with_fuel(spec_weight_sum, 10);
}

impl Mode {
    /// Parse a nine-character `rwxrwxrwx` string into a mode word; `None`
    /// exactly when the string does not fit the template.
    pub fn from_rwx_str(s: &str) -> (r: Option<Mode>)
        ensures
            spec_valid_rwx(s@) ==> r == Some(Mode(spec_mode_value(s@, 9) as u32)),
            !spec_valid_rwx(s@) ==> r == None::<Mode>,
    {
        if s.unicode_len() != 9 {
            return None;
        }
        let mut i: usize = 0;
        while i < 9
            invariant
                s@.len() == 9,
                0 <= i <= 9,
                forall|k: int| 0 <= k < i ==> s@[k] == spec_rwx_template(k) || s@[k] == '-',
            decreases 9 - i,
        {
            let c = s.get_char(i);
            let expected = if i % 3 == 0 {
                'r'
            } else if i % 3 == 1 {
                'w'
            } else {
                'x'
            };
            if c != expected && c != '-' {
                assert(!(s@[i as int] == spec_rwx_template(i as int) || s@[i as int] == '-'));
                return None;
            }
            i = i + 1;
        }

        let mut out: u32 = 0;
        let mut j: usize = 0;
        while j < 9
            invariant
                s@.len() == 9,
                0 <= j <= 9,
                out == spec_mode_value(s@, j as int),
                spec_valid_rwx(s@),
            decreases 9 - j,
        {
            proof {
                lemma_mode_value_bound(s@, j as int);
                lemma_mode_value_bound(s@, j as int + 1);
                lemma_weight_sum_total();
                assert(spec_weight_sum(j as int) <= spec_weight_sum(9)) by {
                    reveal_with_fuel(spec_weight_sum, 10);
                };
                assert(spec_weight_sum(j as int + 1) <= spec_weight_sum(9)) by {
                    reveal_with_fuel(spec_weight_sum, 10);
                };
            }
            let c = s.get_char(j);
            if c != '-' {
                let owner = if j / 3 == 0 {
                    Owner::User
                } else if j / 3 == 1 {
                    Owner::Group
                } else {
                    Owner::Other
                };
                let perm = if j % 3 == 0 {
                    Permission::Read
                } else if j % 3 == 1 {
                    Permission::Write
                } else {
                    Permission::Execute
                };
                let w = owner_weight(owner) * perm_value(perm);
                assert(w == spec_bit_weight(j as int));
                out = out + w;
            }
            j = j + 1;
        }
        Some(Mode(out))
    }

    /// Set one permission bit by adding its weight; the caller must not add
    /// a bit twice.
    pub fn add_permission(&mut self, owner: Owner, permission: Permission)
        requires
            old(self).0 + spec_owner_weight(owner) * spec_perm_value(permission) <= u32::MAX,
        ensures
            final(self).0 == old(self).0 + spec_owner_weight(owner) * spec_perm_value(permission),
    {
        let w = owner_weight(owner) * perm_value(permission);
        self.0 = self.0 + w;
    }

    /// Clear one permission bit by subtracting its weight; the caller must
    /// only remove a bit that is set.
    pub fn remove_permission(&mut self, owner: Owner, permission: Permission)
        requires
            old(self).0 >= spec_owner_weight(owner) * spec_perm_value(permission),
        ensures
            final(self).0 == old(self).0 - spec_owner_weight(owner) * spec_perm_value(permission),
    {
        let w = owner_weight(owner) * perm_value(permission);
        self.0 = self.0 - w;
    }

    /// The octal digits of the word from the given group's position down:
    /// the word divided by the group's weight.
    pub fn get_owner_perms(&self, owner: Owner) -> (r: u32)
        ensures
            r == self.0 / spec_owner_weight(owner),
    {
        self.0 / owner_weight(owner)
    }

    /// Render the mode word as its nine-character `rwxrwxrwx` string.
    pub fn perms_str(&self) -> (r: String)
        ensures
            r@ == spec_rwx_str(self.0 / 64) + spec_rwx_str(self.0 / 8) + spec_rwx_str(
                self.0 / 1,
            ),
    {
        let mut out = String::new();
        out.append(u32_to_rwx(self.get_owner_perms(Owner::User)));
        out.append(u32_to_rwx(self.get_owner_perms(Owner::Group)));
        out.append(u32_to_rwx(self.get_owner_perms(Owner::Other)));
        out
    }
}

impl core::str::FromStr for Mode {
    type Err = ();

    fn from_str(s: &str) -> Result<Self, ()> {
        match Mode::from_rwx_str(s) {
            Some(m) => Ok(m),
            None => Err(()),
        }
    }
}

/// The `rwx` rendering of the lowest octal digit of `v`.
pub open spec fn spec_rwx_str(v: u32) -> Seq<char> {
    let m = v % 8;
    if m == 0 {
        "---"@
    } else if m == 1 {
        "--x"@
    } else if m == 2 {
        "-w-"@
    } else if m == 3 {
        "-wx"@
    } else if m == 4 {
        "r--"@
    } else if m == 5 {
        "r-x"@
    } else if m == 6 {
        "rw-"@
    } else {
        "rwx"@
    }
}

/// Render the lowest octal digit of a value as its `rwx` triple.
pub fn u32_to_rwx(value: u32) -> (r: &'static str)
    ensures
        r@ == spec_rwx_str(value),
{
    match value % 8 {
        0 => "---",
        1 => "--x",
        2 => "-w-",
        3 => "-wx",
        4 => "r--",
        5 => "r-x",
        6 => "rw-",
        7 => "rwx",
        _ => "---",
    }
}

} // verus!
