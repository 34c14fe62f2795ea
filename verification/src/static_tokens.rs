//! The per-session tables of static tokens: ours and the peer's. Our side
//! binds idempotently and announces new tokens on the Control channel; the
//! peer's side is looked up by handle, and an entry whose token has not yet
//! arrived makes the caller suspend until the binding message is processed.

use vstd::prelude::*;
use crate::keys::UserSignature;
use crate::meadowcap::MeadowcapAuthorisationToken;
use crate::meadowcap::authorised_write;
use crate::meadowcap::cap_eqv;
use crate::resource::ResourceMap;
use crate::resource::spec_bind_if_new;
use crate::wgps::Message;
use crate::wgps::SetupBindStaticToken;
use crate::wgps::StaticToken;
use crate::willow::AuthorisedEntry;
use crate::willow::Entry;
use crate::willow::Unauthorised;

verus! {

/// Static tokens bound by either side of a session.
#[derive(Debug)]
pub struct StaticTokens {
    pub ours: ResourceMap<StaticToken>,
    pub theirs: ResourceMap<StaticToken>,
}

impl StaticTokens {
    /// Two empty tables.
    pub fn new() -> (r: StaticTokens)
        ensures
            r.ours.values@.len() == 0,
            r.theirs.values@.len() == 0,
    {
        StaticTokens { ours: ResourceMap::new(), theirs: ResourceMap::new() }
    }

    /// Records a static token the peer bound; handles are assigned in
    /// arrival order.
    pub fn bind_theirs(&mut self, token: StaticToken)
        ensures
            final(self).theirs.values@ == old(self).theirs.values@.push(token),
            final(self).ours == old(self).ours,
    {
        self.theirs.bind(token);
    }

    /// Binds our static token idempotently; when it is new, also returns
    /// the setup message announcing it.
    pub fn bind_ours(&mut self, token: StaticToken) -> (r: (u64, Option<SetupBindStaticToken>))
        ensures
            (final(self).ours.values@, r.0 as int, r.1 is Some) == spec_bind_if_new(
                old(self).ours.values@,
                token,
            ),
            match r.1 {
                Option::Some(m) => cap_eqv(m.static_token, token),
                Option::None => true,
            },
            final(self).theirs == old(self).theirs,
    {
        let copy = token.clone();
        let (handle, is_new) = self.ours.bind_if_new(token);
        if is_new {
            (handle, Option::Some(SetupBindStaticToken { static_token: copy }))
        } else {
            (handle, Option::None)
        }
    }

    /// Binds our static token and queues the announcing message when it is
    /// new; returns the handle to refer to the token by.
    pub fn bind_and_send_ours(&mut self, static_token: StaticToken, send: &mut Vec<Message>) -> (r:
        u64)
        ensures
            ({
                let (values, h, is_new) = spec_bind_if_new(old(self).ours.values@, static_token);
                &&& final(self).ours.values@ == values
                &&& r as int == h
                &&& !is_new ==> final(send)@ == old(send)@
                &&& is_new ==> final(send)@.len() == old(send)@.len() + 1 && final(send)@.subrange(0, old(send)@.len() as int) == old(send)@ && match final(send)@.last() {
                    Message::SetupBindStaticToken(m) => cap_eqv(m.static_token, static_token),
                    _ => false,
                }
            }),
            final(self).theirs == old(self).theirs,
    {
        let (handle, msg) = self.bind_ours(static_token);
        let ghost before = send@;
        match msg {
            Option::Some(m) => {
                send.push(Message::SetupBindStaticToken(m));
            },
            Option::None => {},
        }
        proof {
            assert(send@.subrange(0, before.len() as int) =~= before);
        }
        handle
    }

    /// The peer's static token bound to `handle`, if it has arrived.
    pub fn get_theirs(&self, handle: u64) -> (r: Option<&StaticToken>)
        ensures
            match r {
                Option::Some(t) => 1 <= handle <= self.theirs.values@.len() && t
                    == &self.theirs.values@[handle - 1],
                Option::None => handle == 0 || handle > self.theirs.values@.len(),
            },
    {
        self.theirs.get(handle)
    }

    /// Builds an authorised entry from the peer's static token named by
    /// `handle` and the dynamic token. `Ok(None)` means the token has not
    /// arrived yet and the caller must suspend until it is bound; an entry
    /// that fails the authorisation check is `Unauthorised`.
    pub fn authorise_entry_eventually(
        &self,
        entry: Entry,
        static_token_handle: u64,
        dynamic_token: UserSignature,
    ) -> (r: Result<Option<AuthorisedEntry>, Unauthorised>)
        requires
            entry.wf(),
        ensures
            match r {
                Result::Ok(opt) => match opt {
                    Option::Some(ae) => 1 <= static_token_handle <= self.theirs.values@.len()
                        && ae.wf() && ae.entry == entry && cap_eqv(
                        ae.token.capability,
                        self.theirs.values@[static_token_handle - 1],
                    ) && ae.token.signature == dynamic_token,
                    Option::None => static_token_handle == 0 || static_token_handle
                        > self.theirs.values@.len(),
                },
                Result::Err(_) => 1 <= static_token_handle <= self.theirs.values@.len()
                    && !authorised_write(
                    entry,
                    (MeadowcapAuthorisationToken {
                        capability: self.theirs.values@[static_token_handle - 1],
                        signature: dynamic_token,
                    }),
                ),
            },
    {
        let static_token = match self.get_theirs(static_token_handle) {
            Option::Some(t) => t.clone(),
            Option::None => {
                return Result::Ok(Option::None);
            },
        };
        proof {
            crate::meadowcap::lemma_authorised_write_eqv_cap(
                entry,
                static_token,
                self.theirs.values@[static_token_handle - 1],
                dynamic_token,
            );
        }
        match AuthorisedEntry::try_from_parts(entry, static_token, dynamic_token) {
            Result::Ok(ae) => Result::Ok(Option::Some(ae)),
            Result::Err(_) => Result::Err(Unauthorised),
        }
    }
}

} // verus!
