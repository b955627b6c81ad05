//! The source of roles, permissions and bans that applications provide.
use vstd::prelude::*;
use crate::text::{str_eq, views};

verus! {

/// Whether an account is banned from a service, for how long and at which level.
#[derive(Debug, Clone, Copy, PartialEq, Eq)]
pub struct SaDisableWrapperInfo {
    /// Whether the account is banned.
    pub is_disabled: bool,
    /// Seconds the ban lasts (-1: forever).
    pub disable_time: i64,
    /// Ban level.
    pub disable_level: i32,
}

impl SaDisableWrapperInfo {
    /// Not banned: time 0, level -2.
    pub fn create_not_disabled() -> (r: Self)
        ensures
            r == (SaDisableWrapperInfo { is_disabled: false, disable_time: 0, disable_level: -2i32 }),
    {
        SaDisableWrapperInfo { is_disabled: false, disable_time: 0, disable_level: -2i32 }
    }

    /// Banned for `disable_time` seconds at `disable_level`.
    pub fn create_disabled(disable_time: i64, disable_level: i32) -> (r: Self)
        ensures
            r == (SaDisableWrapperInfo { is_disabled: true, disable_time, disable_level }),
    {
        SaDisableWrapperInfo { is_disabled: true, disable_time, disable_level }
    }
}

/// Where an application keeps the roles, permissions and bans of its
/// accounts. Each answer is the source's own for its arguments, named by a
/// spec function that every implementation defines.
pub trait StpInterface {
    /// The permission codes the source holds for an account of a type.
    spec fn permissions_of(&self, login_id: Seq<char>, login_type: Seq<char>) -> Seq<Seq<char>>;

    /// The roles the source holds for an account of a type.
    spec fn roles_of(&self, login_id: Seq<char>, login_type: Seq<char>) -> Seq<Seq<char>>;

    /// The ban the source reports for an account and a service: none
    /// unless an implementation says otherwise.
    open spec fn ban_report(&self, login_id: Seq<char>, service: Seq<char>) -> SaDisableWrapperInfo {
        SaDisableWrapperInfo { is_disabled: false, disable_time: 0, disable_level: -2i32 }
    }

    /// The permission codes of an account.
    fn get_permission_list(&self, login_id: &str, login_type: &str) -> (r: Vec<String>)
        ensures
            views(r@) == self.permissions_of(login_id@, login_type@);

    /// The roles of an account.
    fn get_role_list(&self, login_id: &str, login_type: &str) -> (r: Vec<String>)
        ensures
            views(r@) == self.roles_of(login_id@, login_type@);

    /// Whether an account is banned from a service; not banned unless an
    /// implementation says otherwise.
    fn is_disabled(&self, login_id: &str, service: &str) -> (r: SaDisableWrapperInfo)
        ensures
            r == self.ban_report(login_id@, service@);
}

/// The default source: no roles, no permissions, no bans.
pub struct StpInterfaceDefaultImpl;

impl Default for StpInterfaceDefaultImpl {
    fn default() -> (r: Self) {
        StpInterfaceDefaultImpl
    }
}

impl StpInterface for StpInterfaceDefaultImpl {
    open spec fn permissions_of(&self, login_id: Seq<char>, login_type: Seq<char>) -> Seq<Seq<char>> {
        Seq::empty()
    }

    open spec fn roles_of(&self, login_id: Seq<char>, login_type: Seq<char>) -> Seq<Seq<char>> {
        Seq::empty()
    }

    fn get_permission_list(&self, login_id: &str, login_type: &str) -> (r: Vec<String>) {
        let r: Vec<String> = Vec::new();
        assert(views(r@) =~= Seq::<Seq<char>>::empty());
        r
    }

    fn get_role_list(&self, login_id: &str, login_type: &str) -> (r: Vec<String>) {
        let r: Vec<String> = Vec::new();
        assert(views(r@) =~= Seq::<Seq<char>>::empty());
        r
    }

    fn is_disabled(&self, login_id: &str, service: &str) -> (r: SaDisableWrapperInfo) {
        SaDisableWrapperInfo::create_not_disabled()
    }
}

/// The list kept for an account: the first entry under its id, else none.
pub open spec fn lookup_list(entries: Seq<(Seq<char>, Seq<Seq<char>>)>, id: Seq<char>) -> Seq<Seq<char>>
    decreases entries.len(),
{
    if entries.len() == 0 {
        Seq::empty()
    } else if entries[0].0 == id {
        entries[0].1
    } else {
        lookup_list(entries.drop_first(), id)
    }
}

/// The ban kept for an account and a service: the first entry under them,
/// else not banned.
pub open spec fn lookup_ban(entries: Seq<(Seq<char>, Seq<char>, SaDisableWrapperInfo)>, id: Seq<char>, service: Seq<char>) -> SaDisableWrapperInfo
    decreases entries.len(),
{
    if entries.len() == 0 {
        SaDisableWrapperInfo { is_disabled: false, disable_time: 0, disable_level: -2i32 }
    } else if entries[0].0 == id && entries[0].1 == service {
        entries[0].2
    } else {
        lookup_ban(entries.drop_first(), id, service)
    }
}

/// The views of the (account, list) entries of a table.
pub open spec fn list_entries(v: Seq<(String, Vec<String>)>) -> Seq<(Seq<char>, Seq<Seq<char>>)> {
    v.map_values(|e: (String, Vec<String>)| (e.0@, views(e.1@)))
}

/// The views of the (account, service, report) entries of a table.
pub open spec fn ban_entries(v: Seq<(String, String, SaDisableWrapperInfo)>) -> Seq<(Seq<char>, Seq<char>, SaDisableWrapperInfo)> {
    v.map_values(|e: (String, String, SaDisableWrapperInfo)| (e.0@, e.1@, e.2))
}

/// A copy of a list of strings.
fn copy_list(v: &Vec<String>) -> (r: Vec<String>)
    ensures
        views(r@) == views(v@),
{
    let mut r: Vec<String> = Vec::new();
    let mut i: usize = 0;
    while i < v.len()
        invariant
            i <= v@.len(),
            views(r@) == views(v@).take(i as int),
        decreases v@.len() - i,
    {
        let ghost before = r@;
        let x = v[i].clone();
        r.push(x);
        proof {
            assert(r@ == before.push(x));
            assert(views(r@) =~= views(before).push(v@[i as int]@));
            assert(views(r@) =~= views(v@).take(i as int + 1));
        }
        i += 1;
    }
    assert(views(v@).take(v@.len() as int) =~= views(v@));
    r
}

/// The list a table keeps for an account (see [`lookup_list`]).
fn find_list(table: &Vec<(String, Vec<String>)>, id: &str) -> (r: Vec<String>)
    ensures
        views(r@) == lookup_list(list_entries(table@), id@),
{
    let ghost es = list_entries(table@);
    let mut i: usize = 0;
    assert(es.subrange(0, es.len() as int) =~= es);
    while i < table.len()
        invariant
            es == list_entries(table@),
            i <= table@.len(),
            lookup_list(es, id@) == lookup_list(es.subrange(i as int, es.len() as int), id@),
        decreases table@.len() - i,
    {
        let ghost rest = es.subrange(i as int, es.len() as int);
        assert(rest[0] == es[i as int]);
        if str_eq(table[i].0.as_str(), id) {
            return copy_list(&table[i].1);
        }
        assert(rest.drop_first() =~= es.subrange(i as int + 1, es.len() as int));
        i += 1;
    }
    assert(es.subrange(i as int, es.len() as int) =~= Seq::<(Seq<char>, Seq<Seq<char>>)>::empty());
    Vec::new()
}

/// A source backed by tables: the roles, permissions and bans of accounts,
/// the first entry under an account (and service) counting, whatever the
/// account type.
pub struct StpInterfaceTable {
    /// The permission codes of accounts.
    pub permissions: Vec<(String, Vec<String>)>,
    /// The roles of accounts.
    pub roles: Vec<(String, Vec<String>)>,
    /// The bans of accounts from services.
    pub bans: Vec<(String, String, SaDisableWrapperInfo)>,
}

impl StpInterface for StpInterfaceTable {
    open spec fn permissions_of(&self, login_id: Seq<char>, login_type: Seq<char>) -> Seq<Seq<char>> {
        lookup_list(list_entries(self.permissions@), login_id)
    }

    open spec fn roles_of(&self, login_id: Seq<char>, login_type: Seq<char>) -> Seq<Seq<char>> {
        lookup_list(list_entries(self.roles@), login_id)
    }

    open spec fn ban_report(&self, login_id: Seq<char>, service: Seq<char>) -> SaDisableWrapperInfo {
        lookup_ban(ban_entries(self.bans@), login_id, service)
    }

    fn get_permission_list(&self, login_id: &str, login_type: &str) -> (r: Vec<String>) {
        find_list(&self.permissions, login_id)
    }

    fn get_role_list(&self, login_id: &str, login_type: &str) -> (r: Vec<String>) {
        find_list(&self.roles, login_id)
    }

    fn is_disabled(&self, login_id: &str, service: &str) -> (r: SaDisableWrapperInfo) {
        let ghost es = ban_entries(self.bans@);
        let mut i: usize = 0;
        assert(es.subrange(0, es.len() as int) =~= es);
        while i < self.bans.len()
            invariant
                es == ban_entries(self.bans@),
                i <= self.bans@.len(),
                lookup_ban(es, login_id@, service@) == lookup_ban(es.subrange(i as int, es.len() as int), login_id@, service@),
            decreases self.bans@.len() - i,
        {
            let ghost rest = es.subrange(i as int, es.len() as int);
            assert(rest[0] == es[i as int]);
            if str_eq(self.bans[i].0.as_str(), login_id) && str_eq(self.bans[i].1.as_str(), service) {
                return self.bans[i].2;
            }
            assert(rest.drop_first() =~= es.subrange(i as int + 1, es.len() as int));
            i += 1;
        }
        assert(es.subrange(i as int, es.len() as int) =~= Seq::<(Seq<char>, Seq<char>, SaDisableWrapperInfo)>::empty());
        SaDisableWrapperInfo::create_not_disabled()
    }
}

} // verus!
