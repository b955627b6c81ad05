//! Sessions and the login terminals recorded in them.
use vstd::prelude::*;
use crate::json::clone_json;
use crate::text::str_eq;

verus! {

/// What the library reads of a terminal.
pub struct TerminalModel {
    pub index: i32,
    pub token_value: Seq<char>,
    pub device_type: Seq<char>,
    pub device_id: Seq<char>,
    pub extra_data: Option<serde_json::Value>,
}

/// What the library reads of a session.
pub struct SessionModel {
    pub id: Seq<char>,
    pub session_type: Seq<char>,
    pub login_type: Seq<char>,
    pub login_id: Seq<char>,
    pub token: Seq<char>,
    pub terminals: Seq<TerminalModel>,
}

/// One login terminal of an account: the token it holds and the device.
pub struct SaTerminalInfo {
    /// Position of the terminal when it logged in (1-based).
    pub index: i32,
    /// The token of this terminal.
    pub token_value: String,
    /// Device type.
    pub device_type: String,
    /// Device id.
    pub device_id: String,
    /// Extra data attached at login.
    pub extra_data: Option<serde_json::Value>,
}

impl View for SaTerminalInfo {
    type V = TerminalModel;

    open spec fn view(&self) -> TerminalModel {
        TerminalModel {
            index: self.index,
            token_value: self.token_value@,
            device_type: self.device_type@,
            device_id: self.device_id@,
            extra_data: self.extra_data,
        }
    }
}

impl SaTerminalInfo {
    /// A terminal with its index, token and device type, and no device id.
    pub fn new(index: i32, token_value: &str, device_type: &str) -> (r: Self)
        ensures
            r@ == (TerminalModel {
                index,
                token_value: token_value@,
                device_type: device_type@,
                device_id: Seq::<char>::empty(),
                extra_data: None,
            }),
    {
        SaTerminalInfo {
            index,
            token_value: token_value.to_owned(),
            device_type: device_type.to_owned(),
            device_id: String::new(),
            extra_data: None,
        }
    }

    /// Sets the device id.
    pub fn set_device_id(&mut self, device_id: &str)
        ensures
            final(self)@ == (TerminalModel { device_id: device_id@, ..old(self)@ }),
    {
        self.device_id = device_id.to_owned();
    }

    /// Attaches extra data.
    pub fn set_extra_data(&mut self, value: serde_json::Value)
        ensures
            final(self)@ == (TerminalModel { extra_data: Some(value), ..old(self)@ }),
    {
        self.extra_data = Some(value);
    }

    /// The token of this terminal.
    pub fn token_value(&self) -> (r: &str)
        ensures
            r@ == self@.token_value,
    {
        self.token_value.as_str()
    }

    /// The device type.
    pub fn device_type(&self) -> (r: &str)
        ensures
            r@ == self@.device_type,
    {
        self.device_type.as_str()
    }

    /// The device id.
    pub fn device_id(&self) -> (r: &str)
        ensures
            r@ == self@.device_id,
    {
        self.device_id.as_str()
    }

    /// The index.
    pub fn index(&self) -> (r: i32)
        ensures
            r == self@.index,
    {
        self.index
    }
}

impl Clone for SaTerminalInfo {
    fn clone(&self) -> (r: Self)
        ensures
            r@ == self@,
    {
        let extra_data = match &self.extra_data {
            Some(v) => Some(clone_json(v)),
            None => None,
        };
        SaTerminalInfo {
            index: self.index,
            token_value: self.token_value.clone(),
            device_type: self.device_type.clone(),
            device_id: self.device_id.clone(),
            extra_data,
        }
    }
}

/// The terminal models of a list of terminals.
pub open spec fn terminal_models(ts: Seq<SaTerminalInfo>) -> Seq<TerminalModel> {
    ts.map_values(|t: SaTerminalInfo| t@)
}

/// The terminals whose token is not `tv`, in order.
pub open spec fn without_token(ts: Seq<TerminalModel>, tv: Seq<char>) -> Seq<TerminalModel>
    decreases ts.len(),
{
    if ts.len() == 0 {
        ts
    } else {
        let rest = without_token(ts.drop_last(), tv);
        if ts.last().token_value == tv {
            rest
        } else {
            rest.push(ts.last())
        }
    }
}

/// Position of the first terminal holding token `tv`.
pub open spec fn find_token(ts: Seq<TerminalModel>, tv: Seq<char>) -> Option<int>
    decreases ts.len(),
{
    if ts.len() == 0 {
        None
    } else {
        match find_token(ts.drop_last(), tv) {
            Some(i) => Some(i),
            None => if ts.last().token_value == tv {
                Some(ts.len() - 1)
            } else {
                None
            },
        }
    }
}

/// The tokens of the terminals, in order.
pub open spec fn tokens_of(ts: Seq<TerminalModel>) -> Seq<Seq<char>> {
    ts.map_values(|t: TerminalModel| t.token_value)
}

/// The first terminal holding token `tv` comes first among those holding it.
pub proof fn lemma_find_token(ts: Seq<TerminalModel>, tv: Seq<char>)
    ensures
        match find_token(ts, tv) {
            Some(i) => 0 <= i < ts.len() && ts[i].token_value == tv
                && forall|j: int| 0 <= j < i ==> ts[j].token_value != tv,
            None => forall|j: int| 0 <= j < ts.len() ==> ts[j].token_value != tv,
        },
    decreases ts.len(),
{
    if ts.len() > 0 {
        lemma_find_token(ts.drop_last(), tv);
        assert forall|j: int| 0 <= j < ts.len() - 1 implies ts.drop_last()[j] == ts[j] by {}
    }
}

/// Removing the terminals of a token leaves none of them.
pub proof fn lemma_without_token(ts: Seq<TerminalModel>, tv: Seq<char>)
    ensures
        forall|j: int| 0 <= j < without_token(ts, tv).len() ==> #[trigger] without_token(ts, tv)[j].token_value != tv,
        without_token(ts, tv).len() <= ts.len(),
        (forall|j: int| 0 <= j < ts.len() ==> ts[j].token_value != tv) ==> without_token(ts, tv) == ts,
    decreases ts.len(),
{
    if ts.len() > 0 {
        lemma_without_token(ts.drop_last(), tv);
        if forall|j: int| 0 <= j < ts.len() ==> ts[j].token_value != tv {
            assert(forall|j: int| 0 <= j < ts.drop_last().len() ==> ts.drop_last()[j].token_value != tv) by {
                assert forall|j: int| 0 <= j < ts.drop_last().len() implies ts.drop_last()[j].token_value != tv by {
                    assert(ts.drop_last()[j] == ts[j]);
                }
            }
            assert(ts.drop_last().push(ts.last()) =~= ts);
        }
    }
}

/// Removing the terminals of a token brings in no terminal of another
/// token that was absent.
pub proof fn lemma_without_token_keeps_absent(ts: Seq<TerminalModel>, tv: Seq<char>, other: Seq<char>)
    requires
        forall|j: int| 0 <= j < ts.len() ==> #[trigger] ts[j].token_value != other,
    ensures
        forall|j: int| 0 <= j < without_token(ts, tv).len() ==> #[trigger] without_token(ts, tv)[j].token_value != other,
    decreases ts.len(),
{
    if ts.len() > 0 {
        assert forall|j: int| 0 <= j < ts.drop_last().len() implies #[trigger] ts.drop_last()[j].token_value != other by {
            assert(ts.drop_last()[j] == ts[j]);
        }
        lemma_without_token_keeps_absent(ts.drop_last(), tv, other);
    }
}

/// After the terminals of a token are removed, none is found for it.
pub proof fn lemma_removed_token_not_found(ts: Seq<TerminalModel>, tv: Seq<char>)
    ensures
        find_token(without_token(ts, tv), tv) is None,
{
    lemma_without_token(ts, tv);
    lemma_find_token(without_token(ts, tv), tv);
}

/// A terminal just added is the one found for its token.
pub proof fn lemma_added_terminal_found(ts: Seq<TerminalModel>, t: TerminalModel)
    ensures
        find_token(without_token(ts, t.token_value).push(t), t.token_value)
            == Some(without_token(ts, t.token_value).len() as int),
{
    let w = without_token(ts, t.token_value);
    lemma_removed_token_not_found(ts, t.token_value);
    assert(w.push(t).drop_last() =~= w);
}

/// A session: its id, what it belongs to and the terminals logged in to it.
pub struct SaSession {
    id: String,
    session_type: String,
    login_type: String,
    login_id: String,
    token: String,
    terminals: Vec<SaTerminalInfo>,
}

impl View for SaSession {
    type V = SessionModel;

    closed spec fn view(&self) -> SessionModel {
        SessionModel {
            id: self.id@,
            session_type: self.session_type@,
            login_type: self.login_type@,
            login_id: self.login_id@,
            token: self.token@,
            terminals: terminal_models(self.terminals@),
        }
    }
}

impl SaSession {
    /// An empty session with this id.
    pub fn new(id: &str) -> (r: Self)
        ensures
            r@ == (SessionModel {
                id: id@,
                session_type: Seq::<char>::empty(),
                login_type: Seq::<char>::empty(),
                login_id: Seq::<char>::empty(),
                token: Seq::<char>::empty(),
                terminals: Seq::<TerminalModel>::empty(),
            }),
    {
        let r = SaSession {
            id: id.to_owned(),
            session_type: String::new(),
            login_type: String::new(),
            login_id: String::new(),
            token: String::new(),
            terminals: Vec::new(),
        };
        assert(terminal_models(r.terminals@) =~= Seq::<TerminalModel>::empty());
        r
    }

    /// The id.
    pub fn id(&self) -> (r: &str)
        ensures
            r@ == self@.id,
    {
        self.id.as_str()
    }

    /// The session type.
    pub fn session_type(&self) -> (r: &str)
        ensures
            r@ == self@.session_type,
    {
        self.session_type.as_str()
    }

    /// The account type.
    pub fn login_type(&self) -> (r: &str)
        ensures
            r@ == self@.login_type,
    {
        self.login_type.as_str()
    }

    /// The account id.
    pub fn login_id(&self) -> (r: &str)
        ensures
            r@ == self@.login_id,
    {
        self.login_id.as_str()
    }

    /// The token this session belongs to (token sessions).
    pub fn token(&self) -> (r: &str)
        ensures
            r@ == self@.token,
    {
        self.token.as_str()
    }

    /// Sets the session type.
    pub fn set_session_type(&mut self, v: &str)
        ensures
            final(self)@ == (SessionModel { session_type: v@, ..old(self)@ }),
    {
        self.session_type = v.to_owned();
    }

    /// Sets the account type.
    pub fn set_login_type(&mut self, v: &str)
        ensures
            final(self)@ == (SessionModel { login_type: v@, ..old(self)@ }),
    {
        self.login_type = v.to_owned();
    }

    /// Sets the account id.
    pub fn set_login_id(&mut self, v: &str)
        ensures
            final(self)@ == (SessionModel { login_id: v@, ..old(self)@ }),
    {
        self.login_id = v.to_owned();
    }

    /// Sets the token.
    pub fn set_token(&mut self, v: &str)
        ensures
            final(self)@ == (SessionModel { token: v@, ..old(self)@ }),
    {
        self.token = v.to_owned();
    }

    /// The terminals, in login order.
    pub fn terminal_list(&self) -> (r: &Vec<SaTerminalInfo>)
        ensures
            terminal_models(r@) == self@.terminals,
    {
        &self.terminals
    }

    /// The first terminal holding the token.
    pub fn get_terminal(&self, token_value: &str) -> (r: Option<&SaTerminalInfo>)
        ensures
            match find_token(self@.terminals, token_value@) {
                Some(i) => r is Some && r->0@ == self@.terminals[i],
                None => r is None,
            },
    {
        proof {
            lemma_find_token(self@.terminals, token_value@);
        }
        let mut i: usize = 0;
        while i < self.terminals.len()
            invariant
                i <= self.terminals@.len(),
                forall|j: int| 0 <= j < i ==> self@.terminals[j].token_value != token_value@,
            decreases self.terminals@.len() - i,
        {
            proof {
                assert(self@.terminals[i as int] == self.terminals@[i as int]@);
            }
            if str_eq(self.terminals[i].token_value.as_str(), token_value) {
                proof {
                    assert(self@.terminals[i as int] == self.terminals@[i as int]@);
                    lemma_find_token(self@.terminals, token_value@);
                    let f = find_token(self@.terminals, token_value@);
                    assert(f is Some);
                    let k = f->0;
                    assert(k == i) by {
                        if k < i {
                            assert(self@.terminals[k].token_value != token_value@);
                        }
                    }
                }
                return Some(&self.terminals[i]);
            }
            i += 1;
        }
        None
    }

    /// Removes every terminal holding the token.
    pub fn remove_terminal(&mut self, token_value: &str)
        ensures
            final(self)@ == (SessionModel {
                terminals: without_token(old(self)@.terminals, token_value@),
                ..old(self)@
            }),
    {
        let ghost old_ts = self@.terminals;
        let mut kept: Vec<SaTerminalInfo> = Vec::new();
        let mut i: usize = 0;
        while i < self.terminals.len()
            invariant
                i <= self.terminals@.len(),
                terminal_models(self.terminals@) == old_ts,
                terminal_models(kept@) == without_token(old_ts.subrange(0, i as int), token_value@),
            decreases self.terminals@.len() - i,
        {
            let ghost before = kept@;
            if !str_eq(self.terminals[i].token_value.as_str(), token_value) {
                let t = self.terminals[i].clone();
                kept.push(t);
                proof {
                    assert(terminal_models(kept@) =~= terminal_models(before).push(old_ts[i as int]));
                }
            }
            proof {
                let s = old_ts.subrange(0, i as int + 1);
                assert(s.drop_last() =~= old_ts.subrange(0, i as int));
                assert(s.last() == old_ts[i as int]);
            }
            i += 1;
        }
        assert(old_ts.subrange(0, old_ts.len() as int) =~= old_ts);
        self.terminals = kept;
    }

    /// Adds a terminal at the end, replacing one with the same token.
    pub fn add_terminal(&mut self, terminal: SaTerminalInfo)
        ensures
            final(self)@ == (SessionModel {
                terminals: without_token(old(self)@.terminals, terminal@.token_value).push(terminal@),
                ..old(self)@
            }),
    {
        let ghost t = terminal@;
        self.remove_terminal(terminal.token_value.as_str());
        self.terminals.push(terminal);
        proof {
            assert(terminal_models(self.terminals@) =~= without_token(old(self)@.terminals, t.token_value).push(t));
        }
    }
}

impl Clone for SaSession {
    fn clone(&self) -> (r: Self)
        ensures
            r@ == self@,
    {
        let mut ts: Vec<SaTerminalInfo> = Vec::new();
        let mut i: usize = 0;
        while i < self.terminals.len()
            invariant
                i <= self.terminals@.len(),
                terminal_models(ts@) == terminal_models(self.terminals@).subrange(0, i as int),
            decreases self.terminals@.len() - i,
        {
            let ghost before = ts@;
            let t = self.terminals[i].clone();
            ts.push(t);
            proof {
                assert(ts@ == before.push(t));
                assert(terminal_models(self.terminals@)[i as int] == self.terminals@[i as int]@);
                assert(terminal_models(ts@) =~= terminal_models(before).push(t@));
                assert(terminal_models(ts@) =~= terminal_models(self.terminals@).subrange(0, i as int + 1));
            }
            i += 1;
        }
        assert(terminal_models(self.terminals@).subrange(0, self.terminals@.len() as int) =~= terminal_models(self.terminals@));
        SaSession {
            id: self.id.clone(),
            session_type: self.session_type.clone(),
            login_type: self.login_type.clone(),
            login_id: self.login_id.clone(),
            token: self.token.clone(),
            terminals: ts,
        }
    }
}

} // verus!
