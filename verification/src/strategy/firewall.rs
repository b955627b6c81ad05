//! The request firewall: an ordered list of checks run on each request.
use vstd::prelude::*;
use crate::context::{SaRequestForMock, SaResponseForMock};
use crate::exception::SaTokenException;
use crate::strategy::hooks::{
    CheckOutcome, SaFirewallCheckHook, SaFirewallCheckHookForBlackPath, SaFirewallCheckHookForDirectoryTraversal,
    SaFirewallCheckHookForHeader, SaFirewallCheckHookForHost, SaFirewallCheckHookForHttpMethod,
    SaFirewallCheckHookForParameter, SaFirewallCheckHookForPathBannedCharacter,
    SaFirewallCheckHookForPathDangerCharacter, SaFirewallCheckHookForWhitePath, SaFirewallHook, outcome,
    default_danger_characters, default_methods,
};
use crate::text::views;

verus! {

/// What the checks from position `i` on decide: the first decision that is
/// not a pass, where a stop lets the request through.
pub open spec fn chain_from<H: SaFirewallCheckHook>(hooks: Seq<H>, req: SaRequestForMock, i: int) -> CheckOutcome
    decreases hooks.len() - i,
{
    if i < 0 || i >= hooks.len() {
        CheckOutcome::Pass
    } else {
        match hooks[i].verdict(req) {
            CheckOutcome::Pass => chain_from(hooks, req, i + 1),
            CheckOutcome::Stop => CheckOutcome::Pass,
            o => o,
        }
    }
}

/// The firewall: checks run in order. The checks are the library's own
/// unless an application brings a check type of its own.
pub struct SaFirewallStrategy<H: SaFirewallCheckHook = SaFirewallHook> {
    /// The checks, in the order they run.
    pub check_hooks: Vec<H>,
}

impl SaFirewallStrategy<SaFirewallHook> {
    /// The firewall with the library's checks in their default order and
    /// settings: white-listed paths, black-listed paths, dangerous
    /// characters, banned characters, directory traversal, hosts, methods,
    /// headers and parameters.
    pub fn instance() -> (r: Self)
        ensures
            r.check_hooks@.len() == 9,
            r.check_hooks@[0] matches SaFirewallHook::WhitePath(h) && h.white_paths@.len() == 0,
            r.check_hooks@[1] matches SaFirewallHook::BlackPath(h) && h.black_paths@.len() == 0,
            r.check_hooks@[2] matches SaFirewallHook::PathDangerCharacter(h)
                && views(h.danger_character@) == default_danger_characters(),
            r.check_hooks@[3] matches SaFirewallHook::PathBannedCharacter(h) && !h.banned_percentage,
            r.check_hooks@[4] is DirectoryTraversal,
            r.check_hooks@[5] matches SaFirewallHook::Host(h) && !h.is_check_host && h.allow_hosts@.len() == 0,
            r.check_hooks@[6] matches SaFirewallHook::HttpMethod(h) && h.is_check_method
                && views(h.allow_methods@) == default_methods(),
            r.check_hooks@[7] matches SaFirewallHook::Header(h) && h.not_allow_header_names@.len() == 0,
            r.check_hooks@[8] matches SaFirewallHook::Parameter(h) && h.not_allow_parameter_names@.len() == 0,
    {
        let mut hooks: Vec<SaFirewallHook> = Vec::new();
        hooks.push(SaFirewallHook::WhitePath(SaFirewallCheckHookForWhitePath::instance()));
        hooks.push(SaFirewallHook::BlackPath(SaFirewallCheckHookForBlackPath::instance()));
        hooks.push(SaFirewallHook::PathDangerCharacter(SaFirewallCheckHookForPathDangerCharacter::instance()));
        hooks.push(SaFirewallHook::PathBannedCharacter(SaFirewallCheckHookForPathBannedCharacter::instance()));
        hooks.push(SaFirewallHook::DirectoryTraversal(SaFirewallCheckHookForDirectoryTraversal::instance()));
        hooks.push(SaFirewallHook::Host(SaFirewallCheckHookForHost::instance()));
        hooks.push(SaFirewallHook::HttpMethod(SaFirewallCheckHookForHttpMethod::instance()));
        hooks.push(SaFirewallHook::Header(SaFirewallCheckHookForHeader::instance()));
        hooks.push(SaFirewallHook::Parameter(SaFirewallCheckHookForParameter::instance()));
        SaFirewallStrategy { check_hooks: hooks }
    }
}

impl<H: SaFirewallCheckHook> SaFirewallStrategy<H> {
    /// A firewall with these checks, in this order.
    pub fn with_hooks(check_hooks: Vec<H>) -> (r: Self)
        ensures
            r.check_hooks@ == check_hooks@,
    {
        SaFirewallStrategy { check_hooks }
    }

    /// Adds a check at the end.
    pub fn register_hook(&mut self, hook: H)
        ensures
            final(self).check_hooks@ == old(self).check_hooks@.push(hook),
    {
        self.check_hooks.push(hook);
    }

    /// Adds a check at the front.
    pub fn register_hook_to_first(&mut self, hook: H)
        ensures
            final(self).check_hooks@ == old(self).check_hooks@.insert(0, hook),
    {
        self.check_hooks.insert(0, hook);
    }

    /// Adds a check in second place.
    pub fn register_hook_to_second(&mut self, hook: H)
        requires
            old(self).check_hooks@.len() >= 1,
        ensures
            final(self).check_hooks@ == old(self).check_hooks@.insert(1, hook),
    {
        self.check_hooks.insert(1, hook);
    }

    /// Runs the checks in order: the first refusal is the answer (the very
    /// error that check gives), a stop lets the request through at once.
    pub fn execute_check(&self, req: &SaRequestForMock, res: &SaResponseForMock) -> (r: Result<(), SaTokenException>)
        requires
            req.wf(),
        ensures
            outcome(r) == chain_from(self.check_hooks@, *req, 0),
            !(r matches Err(SaTokenException::StopMatch)),
            chain_from(self.check_hooks@, *req, 0) matches CheckOutcome::Other(e) ==> r == Err::<(), SaTokenException>(e),
    {
        let mut i: usize = 0;
        while i < self.check_hooks.len()
            invariant
                req.wf(),
                i <= self.check_hooks@.len(),
                chain_from(self.check_hooks@, *req, 0) == chain_from(self.check_hooks@, *req, i as int),
            decreases self.check_hooks@.len() - i,
        {
            let r = self.check_hooks[i].execute(req, res);
            match r {
                Ok(()) => {},
                Err(SaTokenException::StopMatch) => {
                    return Ok(());
                },
                Err(e) => {
                    return Err(e);
                },
            }
            i += 1;
        }
        Ok(())
    }
}

} // verus!
