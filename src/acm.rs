//! The watch engine: the state of one subscription and the decisions of its
//! long-poll protocol. The caller performs each request that it asks for and
//! hands back what came of it.
use vstd::prelude::*;

use crate::address::{get_acm_server, ipv4_text, resolve_spec, Ipv4Addr};
use crate::codec::{decode_entry, decode_spec, encode_entries, encode_spec};
use crate::error::Error;
use crate::signer::{headers, headers_spec, pair_views};
use crate::table::{fingerprint, fingerprint_spec, has_id, set_spec, unique_ids, EntryTable, EntryView};
use crate::AcmGroup;

verus! {

/// Seconds that a long poll may take before it is given up.
pub const PROBE_TIMEOUT_SECS: u64 = 40;

/// Seconds that any other request may take.
pub const FETCH_TIMEOUT_SECS: u64 = 5;

/// The configuration server's endpoint at a given address.
pub open spec fn config_url_spec(a: Ipv4Addr) -> Seq<char> {
    "http://"@ + ipv4_text(a) + ":8080/diamond-server/config.co"@
}

/// What the caller hands back after performing an action.
pub enum WatchEvent {
    /// The long poll answered with this text.
    Probed(String),
    /// The full configuration of this id was fetched.
    Fetched(String, Vec<u8>),
}

/// What the caller is to do next.
pub enum WatchAction {
    /// Send the long poll again.
    Probe,
    /// Fetch the full configuration of this id.
    Fetch(String),
    /// Hand this id and its new configuration to the user.
    Deliver(String, Vec<u8>),
}

/// One subscription to a fixed set of configuration entries.
pub struct Acm {
    address_server: String,
    acm_server: Ipv4Addr,
    group: AcmGroup,
    current_config: EntryTable,
}

impl Acm {
    /// The ids are kept once each.
    pub closed spec fn wf(&self) -> bool {
        unique_ids(self.current_config@)
    }

    /// Each watched id with its last fingerprint.
    pub closed spec fn entries(&self) -> Seq<EntryView> {
        self.current_config@
    }

    /// The configuration server's current address.
    pub closed spec fn server(&self) -> Ipv4Addr {
        self.acm_server
    }

    /// The host of the address server.
    pub closed spec fn address_server_spec(&self) -> Seq<char> {
        self.address_server@
    }

    /// The identity whose entries are watched.
    pub closed spec fn identity(&self) -> AcmGroup {
        self.group
    }

    /// Starts watching `ids`, each with an empty fingerprint, at the address
    /// that the address server gave in `address_response`.
    pub fn new(address_server: String, group: AcmGroup, ids: Vec<String>, address_response: &str) -> (r: Result<Acm, Error>)
        ensures
            match resolve_spec(address_response@) {
                Ok(a) => r matches Ok(acm) && {
                    &&& acm.wf()
                    &&& acm.server() == a
                    &&& acm.identity() == group
                    &&& acm.address_server_spec() == address_server@
                    &&& forall|i: int| 0 <= i < acm.entries().len() ==> (#[trigger] acm.entries()[i]).1 == Seq::<char>::empty()
                    &&& forall|id: Seq<char>| has_id(acm.entries(), id) <==> (exists|k: int| 0 <= k < ids@.len() && (#[trigger] ids@[k])@ == id)
                },
                Err(m) => r matches Err(Error::Custom(e)) && e@ == m,
            },
    {
        let acm_server = match get_acm_server(address_response) {
            Ok(a) => a,
            Err(e) => return Err(e),
        };
        let current_config = EntryTable::new(&ids);
        Ok(Acm { address_server, acm_server, group, current_config })
    }

    /// Takes the address that the address server now gives; on an answer
    /// that does not parse, nothing changes.
    pub fn refresh_acm_server(&mut self, address_response: &str) -> (r: Result<(), Error>)
        ensures
            match resolve_spec(address_response@) {
                Ok(a) => {
                    &&& r is Ok
                    &&& final(self).server() == a
                    &&& final(self).entries() == old(self).entries()
                    &&& final(self).identity() == old(self).identity()
                    &&& final(self).address_server_spec() == old(self).address_server_spec()
                    &&& final(self).wf() == old(self).wf()
                },
                Err(m) => r matches Err(Error::Custom(e)) && e@ == m && *final(self) == *old(self),
            },
    {
        match get_acm_server(address_response) {
            Ok(a) => {
                self.acm_server = a;
                Ok(())
            },
            Err(e) => Err(e),
        }
    }

    /// The host of the address server.
    pub fn address_server(&self) -> (r: &str)
        ensures
            r@ == self.address_server_spec(),
    {
        self.address_server.as_str()
    }

    /// The configuration server's endpoint, at the current address.
    pub fn config_url(&self) -> (r: String)
        ensures
            r@ == config_url_spec(self.server()),
    {
        let mut url = String::from_str("http://");
        url.append(self.acm_server.to_text().as_str());
        url.append(":8080/diamond-server/config.co");
        url
    }

    /// The signed headers of a request made at `timestamp` (milliseconds
    /// since the Unix epoch).
    pub fn header(&self, timestamp: u64) -> (r: Vec<(String, String)>)
        ensures
            pair_views(r@) == headers_spec(&self.identity(), timestamp as nat),
    {
        headers(&self.group, timestamp)
    }

    /// The probe that lists every watched entry with its fingerprint.
    pub fn encode_acm_entries(&self) -> (r: String)
        ensures
            r@ == encode_spec(self.entries(), self.identity().group@, self.identity().namespace@),
    {
        encode_entries(&self.current_config, self.group.group.as_str(), self.group.namespace.as_str())
    }

    /// The form of the long poll: the probe, under its field name.
    pub fn probe_form(&self) -> (r: Vec<(String, String)>)
        ensures
            pair_views(r@) == seq![
                ("Probe-Modify-Request"@, encode_spec(self.entries(), self.identity().group@, self.identity().namespace@)),
            ],
    {
        let mut r: Vec<(String, String)> = Vec::new();
        r.push((String::from_str("Probe-Modify-Request"), self.encode_acm_entries()));
        assert(pair_views(r@) =~= seq![
            ("Probe-Modify-Request"@, encode_spec(self.entries(), self.identity().group@, self.identity().namespace@)),
        ]);
        r
    }

    /// The changed id that the long poll's answer names, if any.
    pub fn decode_acm_entry(&self, message: &str) -> (r: Option<String>)
        ensures
            r matches Some(id) ==> decode_spec(self.entries(), message@, self.identity().group@, self.identity().namespace@) == Some(id@),
            r is None ==> decode_spec(self.entries(), message@, self.identity().group@, self.identity().namespace@) is None,
    {
        decode_entry(&self.current_config, message, self.group.group.as_str(), self.group.namespace.as_str())
    }

    /// The query that fetches the full configuration of `id`.
    pub fn config_query(&self, id: &str) -> (r: Vec<(String, String)>)
        ensures
            pair_views(r@) == seq![
                ("tenant"@, self.identity().namespace@),
                ("group"@, self.identity().group@),
                ("dataId"@, id@),
            ],
    {
        let mut r: Vec<(String, String)> = Vec::new();
        r.push((String::from_str("tenant"), self.group.namespace.clone()));
        r.push((String::from_str("group"), self.group.group.clone()));
        r.push((String::from_str("dataId"), String::from_str(id)));
        assert(pair_views(r@) =~= seq![
            ("tenant"@, self.identity().namespace@),
            ("group"@, self.identity().group@),
            ("dataId"@, id@),
        ]);
        r
    }

    /// The fingerprint of `id`, if it is watched.
    pub fn fingerprint(&self, id: &str) -> (r: Option<String>)
        ensures
            match r {
                Some(fp) => exists|i: int| 0 <= i < self.entries().len() && (#[trigger] self.entries()[i]).0 == id@ && self.entries()[i].1 == fp@,
                None => !has_id(self.entries(), id@),
            },
    {
        let r = self.current_config.get(id);
        proof {
            if r is Some {
                let fp = r->Some_0;
                let i = choose|i: int| 0 <= i < self.current_config@.len() && (#[trigger] self.current_config@[i]).0 == id@ && self.current_config@[i].1 == fp@;
                assert(self.entries()[i] == self.current_config@[i]);
            }
        }
        r
    }

    /// Records the fingerprint of the configuration `bytes` that `id` now
    /// has; the other ids keep theirs.
    pub fn update_md5(&mut self, id: &str, bytes: &[u8])
        ensures
            final(self).wf() == old(self).wf(),
            final(self).entries() == set_spec(old(self).entries(), id@, fingerprint_spec(bytes@)),
            final(self).server() == old(self).server(),
            final(self).identity() == old(self).identity(),
            final(self).address_server_spec() == old(self).address_server_spec(),
    {
        let digest = fingerprint(bytes);
        self.current_config.set(id, digest);
    }

    /// One step of waiting for a change. Start by sending the long poll;
    /// an answer that names a watched id asks for its configuration, any
    /// other asks for the long poll again; a fetched configuration updates
    /// the fingerprint and is delivered.
    pub fn wait_for_new_config(&mut self, event: WatchEvent) -> (r: WatchAction)
        ensures
            final(self).wf() == old(self).wf(),
            final(self).server() == old(self).server(),
            final(self).identity() == old(self).identity(),
            final(self).address_server_spec() == old(self).address_server_spec(),
            match event {
                WatchEvent::Probed(text) => {
                    &&& final(self).entries() == old(self).entries()
                    &&& match decode_spec(old(self).entries(), text@, old(self).identity().group@, old(self).identity().namespace@) {
                        Some(id) => r matches WatchAction::Fetch(x) && x@ == id,
                        None => r is Probe,
                    }
                },
                WatchEvent::Fetched(id, data) => {
                    &&& final(self).entries() == set_spec(old(self).entries(), id@, fingerprint_spec(data@))
                    &&& r matches WatchAction::Deliver(x, d) && x@ == id@ && d@ == data@
                },
            },
    {
        match event {
            WatchEvent::Probed(text) => match self.decode_acm_entry(text.as_str()) {
                Some(id) => WatchAction::Fetch(id),
                None => WatchAction::Probe,
            },
            WatchEvent::Fetched(id, data) => {
                self.update_md5(id.as_str(), data.as_slice());
                WatchAction::Deliver(id, data)
            },
        }
    }
}

} // verus!
