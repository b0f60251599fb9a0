use vstd::prelude::*;
use vstd::string::*;
use crate::store::{
    describe_keyring_error, decode_vault, encode_vault, parsed_vault, vault_json, KEYRING_SERVICE,
    VAULT_ENTRY,
};
use crate::supervisor::has_prefix;
use crate::text::{
    lemma_trimmed_ends, lemma_trimmed_fixed, normalized, opt_view, same_text, trim, trimmed,
};

verus! {

/// The closed allowlist of secret names, in a fixed order.
pub open spec fn supported_keys() -> Seq<Seq<char>> {
    seq![
        "GROQ_API_KEY"@,
        "OPENROUTER_API_KEY"@,
        "FRED_API_KEY"@,
        "EIA_API_KEY"@,
        "CLOUDFLARE_API_TOKEN"@,
        "ACLED_ACCESS_TOKEN"@,
        "URLHAUS_AUTH_KEY"@,
        "OTX_API_KEY"@,
        "ABUSEIPDB_API_KEY"@,
        "WINGBITS_API_KEY"@,
        "WS_RELAY_URL"@,
        "VITE_OPENSKY_RELAY_URL"@,
        "OPENSKY_CLIENT_ID"@,
        "OPENSKY_CLIENT_SECRET"@,
        "AISSTREAM_API_KEY"@,
        "VITE_WS_RELAY_URL"@,
        "FINNHUB_API_KEY"@,
        "NASA_FIRMS_API_KEY"@,
        "OLLAMA_API_URL"@,
        "OLLAMA_MODEL"@,
        "WORLDMONITOR_API_KEY"@,
        "PORTCAST_API_KEY"@,
        "GLOBAL_FISHING_WATCH_API_KEY"@,
        "ELECTRICITY_MAPS_API_KEY"@,
        "LIVEUAMAP_API_KEY"@,
    ]
}

/// Number of names in the allowlist.
pub const KEY_COUNT: usize = 25;

/// The first position at or after `i` where `k` stands in the allowlist
/// (the allowlist's length when it stands nowhere there).
pub open spec fn find_key(k: Seq<char>, i: int) -> int
    decreases supported_keys().len() - i,
{
    if i >= supported_keys().len() {
        supported_keys().len() as int
    } else if supported_keys()[i] == k {
        i
    } else {
        find_key(k, i + 1)
    }
}

pub open spec fn key_index(k: Seq<char>) -> int {
    find_key(k, 0)
}

pub open spec fn is_supported(k: Seq<char>) -> bool {
    key_index(k) < KEY_COUNT
}

/// A stored value: trimmed and not empty.
pub open spec fn valid_value(v: Seq<char>) -> bool {
    v.len() > 0 && trimmed(v) == v
}

pub open spec fn empty_slots() -> Seq<Option<Seq<char>>> {
    Seq::new(KEY_COUNT as nat, |i: int| None::<Seq<char>>)
}

pub open spec fn slots_well_formed(s: Seq<Option<Seq<char>>>) -> bool {
    &&& s.len() == KEY_COUNT
    &&& forall|i: int| 0 <= i < s.len() && (#[trigger] s[i]) is Some ==> valid_value(s[i]->Some_0)
}

/// The value a trimmed write leaves: absent when nothing is left.
pub open spec fn written_value(v: Seq<char>) -> Option<Seq<char>> {
    if trimmed(v).len() > 0 {
        Some(trimmed(v))
    } else {
        None
    }
}

/// The pairs `(name, value)` of the present slots among the first `n`, in allowlist order.
pub open spec fn present_entries(s: Seq<Option<Seq<char>>>, n: int) -> Seq<(Seq<char>, Seq<char>)>
    decreases n,
{
    if n <= 0 {
        Seq::empty()
    } else {
        let prev = present_entries(s, n - 1);
        match s[n - 1] {
            Some(v) => prev.push((supported_keys()[n - 1], v)),
            None => prev,
        }
    }
}

/// The slots filled from a consolidated vault's pairs: names outside the
/// allowlist and values empty after trimming are dropped, the others trimmed.
pub open spec fn slots_from_entries(e: Seq<(Seq<char>, Seq<char>)>) -> Seq<Option<Seq<char>>>
    decreases e.len(),
{
    if e.len() == 0 {
        empty_slots()
    } else {
        let prev = slots_from_entries(e.drop_last());
        let k = e.last().0;
        let v = e.last().1;
        if is_supported(k) && trimmed(v).len() > 0 {
            prev.update(key_index(k), Some(trimmed(v)))
        } else {
            prev
        }
    }
}

/// The slots filled from the legacy per-name entries, one per allowlist position.
pub open spec fn slots_from_legacy(values: Seq<Option<Seq<char>>>) -> Seq<Option<Seq<char>>> {
    Seq::new(KEY_COUNT as nat, |i: int| normalized(values[i]))
}

pub open spec fn str_views(v: Seq<&str>) -> Seq<Seq<char>> {
    v.map_values(|s: &str| s@)
}

pub open spec fn string_views(v: Seq<String>) -> Seq<Seq<char>> {
    v.map_values(|s: String| s@)
}

pub open spec fn pair_view(p: (String, String)) -> (Seq<char>, Seq<char>) {
    (p.0@, p.1@)
}

pub open spec fn pairs_view(v: Seq<(String, String)>) -> Seq<(Seq<char>, Seq<char>)> {
    v.map_values(|p: (String, String)| pair_view(p))
}

pub open spec fn unsupported_message(key: Seq<char>) -> Seq<char> {
    "Unsupported secret key: "@ + key
}

pub proof fn lemma_find_key(k: Seq<char>, i: int)
    requires
        0 <= i <= supported_keys().len(),
    ensures
        i <= find_key(k, i) <= supported_keys().len(),
        find_key(k, i) < supported_keys().len() ==> supported_keys()[find_key(k, i)] == k,
    decreases supported_keys().len() - i,
{
    if i < supported_keys().len() && supported_keys()[i] != k {
        lemma_find_key(k, i + 1);
    }
}

proof fn lemma_trimmed_valid(v: Seq<char>)
    requires
        trimmed(v).len() > 0,
    ensures
        valid_value(trimmed(v)),
{
    lemma_trimmed_ends(v);
    lemma_trimmed_fixed(trimmed(v));
}

proof fn lemma_slots_from_entries_wf(e: Seq<(Seq<char>, Seq<char>)>)
    ensures
        slots_well_formed(slots_from_entries(e)),
    decreases e.len(),
{
    if e.len() > 0 {
        lemma_slots_from_entries_wf(e.drop_last());
        let k = e.last().0;
        let v = e.last().1;
        if is_supported(k) && trimmed(v).len() > 0 {
            lemma_find_key(k, 0);
            lemma_trimmed_valid(v);
        }
    }
}

fn supported_key_list() -> (r: Vec<&'static str>)
    ensures
        str_views(r@) == supported_keys(),
        r@.len() == KEY_COUNT,
{
    let r = vec![
        "GROQ_API_KEY",
        "OPENROUTER_API_KEY",
        "FRED_API_KEY",
        "EIA_API_KEY",
        "CLOUDFLARE_API_TOKEN",
        "ACLED_ACCESS_TOKEN",
        "URLHAUS_AUTH_KEY",
        "OTX_API_KEY",
        "ABUSEIPDB_API_KEY",
        "WINGBITS_API_KEY",
        "WS_RELAY_URL",
        "VITE_OPENSKY_RELAY_URL",
        "OPENSKY_CLIENT_ID",
        "OPENSKY_CLIENT_SECRET",
        "AISSTREAM_API_KEY",
        "VITE_WS_RELAY_URL",
        "FINNHUB_API_KEY",
        "NASA_FIRMS_API_KEY",
        "OLLAMA_API_URL",
        "OLLAMA_MODEL",
        "WORLDMONITOR_API_KEY",
        "PORTCAST_API_KEY",
        "GLOBAL_FISHING_WATCH_API_KEY",
        "ELECTRICITY_MAPS_API_KEY",
        "LIVEUAMAP_API_KEY",
    ];
    assert(str_views(r@) =~= supported_keys());
    r
}

/// The names of the allowlist, in order.
pub fn list_supported_secret_keys() -> (r: Vec<String>)
    ensures
        string_views(r@) == supported_keys(),
{
    let keys = supported_key_list();
    let mut r: Vec<String> = Vec::new();
    let mut i: usize = 0;
    while i < keys.len()
        invariant
            0 <= i <= keys@.len(),
            str_views(keys@) == supported_keys(),
            keys@.len() == KEY_COUNT,
            r@.len() == i,
            forall|j: int| 0 <= j < i ==> r@[j]@ == supported_keys()[j],
        decreases keys.len() - i,
    {
        assert(str_views(keys@)[i as int] == keys@[i as int]@);
        r.push(String::from_str(keys[i]));
        i = i + 1;
    }
    assert(string_views(r@) =~= supported_keys());
    r
}

/// The allowlist position of `key`, when it is on the allowlist.
pub fn key_slot(key: &str) -> (r: Option<usize>)
    ensures
        match r {
            Some(i) => is_supported(key@) && i == key_index(key@),
            None => !is_supported(key@),
        },
{
    let keys = supported_key_list();
    let mut i: usize = 0;
    while i < keys.len()
        invariant
            0 <= i <= keys@.len(),
            str_views(keys@) == supported_keys(),
            keys@.len() == KEY_COUNT,
            find_key(key@, i as int) == key_index(key@),
        decreases keys.len() - i,
    {
        assert(str_views(keys@)[i as int] == keys@[i as int]@);
        if same_text(keys[i], key) {
            return Some(i);
        }
        i = i + 1;
    }
    None
}

/// Whether `key` is on the allowlist.
pub fn is_supported_secret_key(key: &str) -> (r: bool)
    ensures
        r == is_supported(key@),
{
    key_slot(key).is_some()
}

fn unsupported_key_error(key: &str) -> (r: String)
    ensures
        r@ == unsupported_message(key@),
{
    let mut r = String::from_str("Unsupported secret key: ");
    r.append(key);
    r
}

fn prefixed(prefix: &str, detail: String) -> (r: String)
    ensures
        r@ == prefix@ + detail@,
{
    let mut r = String::from_str(prefix);
    r.append(detail.as_str());
    r
}

fn copy_slots(v: &Vec<Option<String>>) -> (r: Vec<Option<String>>)
    ensures
        slots_view(r@) == slots_view(v@),
{
    let mut r: Vec<Option<String>> = Vec::new();
    let mut i: usize = 0;
    while i < v.len()
        invariant
            0 <= i <= v@.len(),
            r@.len() == i,
            forall|j: int| 0 <= j < i ==> opt_view(#[trigger] r@[j]) == opt_view(v@[j]),
        decreases v.len() - i,
    {
        let c = match &v[i] {
            Some(s) => Some(s.clone()),
            None => None,
        };
        r.push(c);
        i = i + 1;
    }
    assert(slots_view(r@) =~= slots_view(v@));
    r
}

pub open spec fn slots_view(v: Seq<Option<String>>) -> Seq<Option<Seq<char>>> {
    v.map_values(|o: Option<String>| opt_view(o))
}

fn present_entry_list(v: &Vec<Option<String>>) -> (r: Vec<(String, String)>)
    requires
        v@.len() == KEY_COUNT,
    ensures
        pairs_view(r@) == present_entries(slots_view(v@), KEY_COUNT as int),
{
    let keys = supported_key_list();
    let mut r: Vec<(String, String)> = Vec::new();
    let mut i: usize = 0;
    while i < KEY_COUNT
        invariant
            0 <= i <= KEY_COUNT,
            v@.len() == KEY_COUNT,
            str_views(keys@) == supported_keys(),
            keys@.len() == KEY_COUNT,
            pairs_view(r@) == present_entries(slots_view(v@), i as int),
        decreases KEY_COUNT - i,
    {
        assert(str_views(keys@)[i as int] == keys@[i as int]@);
        match &v[i] {
            Some(s) => {
                r.push((String::from_str(keys[i]), s.clone()));
                assert(pairs_view(r@) =~= present_entries(slots_view(v@), i as int).push(
                    (supported_keys()[i as int], s@),
                ));
            },
            None => {},
        }
        i = i + 1;
    }
    r
}

/// The errors a credential-store write reports.
pub open spec fn is_store_error(e: Seq<char>) -> bool {
    has_prefix(e, "Keyring init failed: "@) || has_prefix(e, "Failed to write vault: "@)
}

proof fn lemma_prefixed(prefix: Seq<char>, detail: Seq<char>)
    ensures
        has_prefix(prefix + detail, prefix),
{
    assert((prefix + detail).take(prefix.len() as int) =~= prefix);
}

/// A credential-store error is never the unsupported-key error.
proof fn lemma_store_error_not_unsupported(e: Seq<char>, key: Seq<char>)
    requires
        is_store_error(e),
    ensures
        e != unsupported_message(key),
{
    reveal_strlit("Keyring init failed: ");
    reveal_strlit("Failed to write vault: ");
    reveal_strlit("Unsupported secret key: ");
    assert(unsupported_message(key)[0] == 'U');
    if has_prefix(e, "Keyring init failed: "@) {
        assert(e.take(21)[0] == e[0]);
    } else {
        assert(e.take(23)[0] == e[0]);
    }
}

/// Writes `json` as the consolidated vault entry.
fn write_vault_text(json: &str) -> (r: Result<(), String>)
    ensures
        r is Err ==> is_store_error(r->Err_0@),
{
    match keyring::Entry::new(KEYRING_SERVICE, VAULT_ENTRY) {
        Err(e) => {
            let m = prefixed("Keyring init failed: ", describe_keyring_error(&e));
            proof {
                lemma_prefixed("Keyring init failed: "@, m@.skip(21));
                reveal_strlit("Keyring init failed: ");
                assert(m@ =~= "Keyring init failed: "@ + m@.skip(21));
            }
            Err(m)
        },
        Ok(entry) => match entry.set_password(json) {
            Ok(()) => Ok(()),
            Err(e) => {
                let m = prefixed("Failed to write vault: ", describe_keyring_error(&e));
                proof {
                    lemma_prefixed("Failed to write vault: "@, m@.skip(23));
                    reveal_strlit("Failed to write vault: ");
                    assert(m@ =~= "Failed to write vault: "@ + m@.skip(23));
                }
                Err(m)
            },
        },
    }
}

/// Writes the consolidated vault holding `entries` to the credential store.
fn save_vault(entries: &Vec<(String, String)>) -> (r: Result<(), String>)
    ensures
        r is Err ==> is_store_error(r->Err_0@),
{
    let json = encode_vault(entries);
    write_vault_text(json.as_str())
}

/// Reads one credential-store entry; any failure reads as absent.
fn read_credential(user: &str) -> (r: Option<String>) {
    match keyring::Entry::new(KEYRING_SERVICE, user) {
        Ok(entry) => match entry.get_password() {
            Ok(p) => Some(p),
            Err(_) => None,
        },
        Err(_) => None,
    }
}

/// Advisory cleanup after a migration: deletes each legacy per-name entry,
/// ignoring failures, since the consolidated vault is already authoritative.
pub fn remove_legacy_entries() {
    let keys = supported_key_list();
    let mut i: usize = 0;
    while i < keys.len()
        decreases keys.len() - i,
    {
        match keyring::Entry::new(KEYRING_SERVICE, keys[i]) {
            Ok(entry) => {
                let _ = entry.delete_credential();
            },
            Err(_) => {},
        }
        i = i + 1;
    }
}

fn copy_opt(o: &Option<String>) -> (r: Option<String>)
    ensures
        opt_view(r) == opt_view(*o),
{
    match o {
        Some(s) => Some(s.clone()),
        None => None,
    }
}

/// A credential-store operation of a load's migration.
pub enum MigrationOp {
    /// Write this text as the consolidated vault entry.
    WriteConsolidated(String),
    /// Delete every legacy per-name entry (failures are ignored).
    DeleteLegacy,
    /// Nothing more to do.
    Finish,
}

/// In-memory cache of the secrets, one optional value per allowlist name.
pub struct SecretsCache {
    secrets: Vec<Option<String>>,
}

impl SecretsCache {
    /// The value held for each allowlist position.
    pub closed spec fn slots(&self) -> Seq<Option<Seq<char>>> {
        slots_view(self.secrets@)
    }

    pub open spec fn wf(&self) -> bool {
        slots_well_formed(self.slots())
    }

    /// The value held under `k`; absent for names outside the allowlist.
    pub open spec fn secret_of(&self, k: Seq<char>) -> Option<Seq<char>> {
        if is_supported(k) {
            self.slots()[key_index(k)]
        } else {
            None
        }
    }

    /// A cache that holds no secret.
    pub fn new() -> (r: SecretsCache)
        ensures
            r.wf(),
            r.slots() == empty_slots(),
    {
        let mut secrets: Vec<Option<String>> = Vec::new();
        let mut i: usize = 0;
        while i < KEY_COUNT
            invariant
                0 <= i <= KEY_COUNT,
                secrets@.len() == i,
                forall|j: int| 0 <= j < i ==> (#[trigger] secrets@[j]) is None,
            decreases KEY_COUNT - i,
        {
            secrets.push(None);
            i = i + 1;
        }
        assert(slots_view(secrets@) =~= empty_slots());
        SecretsCache { secrets }
    }

    /// The cache held by a consolidated vault's pairs.
    pub fn from_vault_entries(entries: Vec<(String, String)>) -> (r: SecretsCache)
        ensures
            r.wf(),
            r.slots() == slots_from_entries(pairs_view(entries@)),
    {
        let mut cache = SecretsCache::new();
        let mut i: usize = 0;
        while i < entries.len()
            invariant
                0 <= i <= entries@.len(),
                cache.slots() == slots_from_entries(pairs_view(entries@).take(i as int)),
            decreases entries.len() - i,
        {
            proof {
                assert(pairs_view(entries@).take(i + 1).drop_last() =~= pairs_view(entries@).take(
                    i as int,
                ));
                lemma_slots_from_entries_wf(pairs_view(entries@).take(i as int));
            }
            let k = &entries[i].0;
            let v = trim(entries[i].1.as_str());
            match key_slot(k.as_str()) {
                Some(idx) => {
                    if v.unicode_len() > 0 {
                        cache.secrets.set(idx, Some(v));
                        assert(cache.slots() =~= slots_from_entries(
                            pairs_view(entries@).take(i as int),
                        ).update(idx as int, Some(trimmed(entries@[i as int].1@))));
                    }
                },
                None => {},
            }
            i = i + 1;
        }
        proof {
            assert(pairs_view(entries@).take(i as int) =~= pairs_view(entries@));
            lemma_slots_from_entries_wf(pairs_view(entries@));
        }
        cache
    }

    /// The cache held by the legacy per-name entries, given in allowlist order.
    pub fn from_legacy_values(values: Vec<Option<String>>) -> (r: SecretsCache)
        requires
            values@.len() == KEY_COUNT,
        ensures
            r.wf(),
            r.slots() == slots_from_legacy(slots_view(values@)),
    {
        let mut secrets: Vec<Option<String>> = Vec::new();
        let mut i: usize = 0;
        while i < KEY_COUNT
            invariant
                0 <= i <= KEY_COUNT,
                values@.len() == KEY_COUNT,
                secrets@.len() == i,
                forall|j: int|
                    0 <= j < i ==> opt_view(#[trigger] secrets@[j]) == normalized(
                        opt_view(values@[j]),
                    ),
            decreases KEY_COUNT - i,
        {
            let slot = match &values[i] {
                Some(v) => {
                    let t = trim(v.as_str());
                    if t.unicode_len() > 0 {
                        Some(t)
                    } else {
                        None
                    }
                },
                None => None,
            };
            secrets.push(slot);
            i = i + 1;
        }
        assert(slots_view(secrets@) =~= slots_from_legacy(slots_view(values@)));
        let r = SecretsCache { secrets };
        assert forall|j: int| 0 <= j < r.slots().len() && (#[trigger] r.slots()[j]) is Some implies valid_value(
            r.slots()[j]->Some_0,
        ) by {
            lemma_trimmed_valid(slots_view(values@)[j]->Some_0);
        }
        r
    }

    /// The cache held by a consolidated vault's text; absent when the text
    /// is no JSON object of string values.
    pub fn from_vault_json(json: &str) -> (r: Option<SecretsCache>)
        ensures
            match parsed_vault(json@) {
                Some(e) => r matches Some(c) && c.wf() && c.slots() == slots_from_entries(e),
                None => r is None,
            },
    {
        match decode_vault(json) {
            Some(entries) => Some(SecretsCache::from_vault_entries(entries)),
            None => None,
        }
    }

    /// The consolidated vault text that holds exactly this cache's secrets.
    pub fn vault_payload(&self) -> (r: String)
        requires
            self.wf(),
        ensures
            r@ == vault_json(present_entries(self.slots(), KEY_COUNT as int)),
    {
        encode_vault(&present_entry_list(&self.secrets))
    }

    /// Whether no secret is held.
    pub fn is_empty(&self) -> (r: bool)
        requires
            self.wf(),
        ensures
            r == (present_entries(self.slots(), KEY_COUNT as int).len() == 0),
    {
        let entries = present_entry_list(&self.secrets);
        entries.len() == 0
    }

    /// The cache a load derives from what it read: the consolidated entry
    /// when it parses; otherwise the legacy per-name entries (in allowlist
    /// order), which are read only then, so `None` asks for them.
    pub fn load_from_reads(vault: Option<String>, legacy: Option<Vec<Option<String>>>) -> (r:
        Option<SecretsCache>)
        requires
            legacy matches Some(l) ==> l@.len() == KEY_COUNT,
        ensures
            !migrates(opt_view(vault)) ==> (r matches Some(c) && c.wf() && c.slots()
                == loaded_slots(opt_view(vault), empty_slots())),
            migrates(opt_view(vault)) && legacy is None ==> r is None,
            migrates(opt_view(vault)) && legacy is Some ==> (r matches Some(c) && c.wf()
                && c.slots() == loaded_slots(opt_view(vault), slots_view(legacy->Some_0@))),
    {
        let parsed = match &vault {
            Some(json) => SecretsCache::from_vault_json(json.as_str()),
            None => None,
        };
        match parsed {
            Some(c) => Some(c),
            None => match legacy {
                Some(values) => Some(SecretsCache::from_legacy_values(values)),
                None => None,
            },
        }
    }

    /// The next credential-store operation of a load. Only a load that fell
    /// back to the legacy entries (`migrating`) and found secrets writes the
    /// consolidated entry; the legacy entries are deleted only once that write
    /// is known to have succeeded (`write_outcome`); otherwise the load is done.
    pub fn next_migration_op(&self, migrating: bool, write_outcome: Option<bool>) -> (r:
        MigrationOp)
        requires
            self.wf(),
        ensures
            !migrating ==> r is Finish,
            migrating && write_outcome is None && present_entries(self.slots(), KEY_COUNT as int).len()
                > 0 ==> (r matches MigrationOp::WriteConsolidated(p) && p@ == vault_json(
                present_entries(self.slots(), KEY_COUNT as int),
            )),
            migrating && write_outcome is None && present_entries(self.slots(), KEY_COUNT as int).len()
                == 0 ==> r is Finish,
            migrating && write_outcome == Some(true) ==> r is DeleteLegacy,
            migrating && write_outcome == Some(false) ==> r is Finish,
    {
        if !migrating {
            return MigrationOp::Finish;
        }
        match write_outcome {
            None => if self.is_empty() {
                MigrationOp::Finish
            } else {
                MigrationOp::WriteConsolidated(self.vault_payload())
            },
            Some(true) => MigrationOp::DeleteLegacy,
            Some(false) => MigrationOp::Finish,
        }
    }

    /// Loads the secrets at startup: reads the consolidated entry, and the
    /// legacy per-name entries when it does not parse, then carries out the
    /// migration steps that `next_migration_op` decides. Never fails: an
    /// entry that cannot be read counts as absent, and a failed write or
    /// deletion only leaves the store as it was.
    pub fn load_from_keychain() -> (r: SecretsCache)
        ensures
            r.wf(),
    {
        let vault_read = read_credential(VAULT_ENTRY);
        let vault_copy = copy_opt(&vault_read);
        match SecretsCache::load_from_reads(vault_read, None) {
            Some(c) => {
                return c;
            },
            None => {},
        }
        let keys = supported_key_list();
        let mut legacy: Vec<Option<String>> = Vec::new();
        let mut i: usize = 0;
        while i < keys.len()
            invariant
                0 <= i <= keys@.len(),
                keys@.len() == KEY_COUNT,
                legacy@.len() == i,
            decreases keys.len() - i,
        {
            legacy.push(read_credential(keys[i]));
            i = i + 1;
        }
        let cache = match SecretsCache::load_from_reads(vault_copy, Some(legacy)) {
            Some(c) => c,
            None => {
                // The consolidated entry did not parse, so the legacy reads decide.
                assert(false);
                SecretsCache::new()
            },
        };
        match cache.next_migration_op(true, None) {
            MigrationOp::WriteConsolidated(payload) => {
                let written = write_vault_text(payload.as_str()).is_ok();
                match cache.next_migration_op(true, Some(written)) {
                    MigrationOp::DeleteLegacy => remove_legacy_entries(),
                    _ => {},
                }
            },
            _ => {},
        }
        cache
    }

    /// The value held under `key`; an error names a key outside the allowlist.
    pub fn get_secret(&self, key: &str) -> (r: Result<Option<String>, String>)
        requires
            self.wf(),
        ensures
            !is_supported(key@) ==> r is Err && r->Err_0@ == unsupported_message(key@),
            is_supported(key@) ==> r is Ok && opt_view(r->Ok_0) == self.secret_of(key@),
    {
        match key_slot(key) {
            None => Err(unsupported_key_error(key)),
            Some(idx) => match &self.secrets[idx] {
                Some(v) => Ok(Some(v.clone())),
                None => Ok(None),
            },
        }
    }

    /// Every held secret as `(name, value)`, in allowlist order.
    pub fn get_all_secrets(&self) -> (r: Vec<(String, String)>)
        requires
            self.wf(),
        ensures
            pairs_view(r@) == present_entries(self.slots(), KEY_COUNT as int),
    {
        present_entry_list(&self.secrets)
    }

    /// Stores `value`, trimmed, under `key`; a value empty after trimming
    /// removes the key. The full proposed vault is written to the credential
    /// store first, and the cache changes only once that write succeeded.
    pub fn set_secret(&mut self, key: &str, value: &str) -> (r: Result<(), String>)
        requires
            old(self).wf(),
        ensures
            final(self).wf(),
            !is_supported(key@) ==> r is Err && r->Err_0@ == unsupported_message(key@),
            is_supported(key@) && r is Err ==> is_store_error(r->Err_0@) && r->Err_0@
                != unsupported_message(key@),
            r is Ok ==> final(self).slots() == old(self).slots().update(
                key_index(key@),
                written_value(value@),
            ),
            r is Err ==> final(self).slots() == old(self).slots(),
    {
        let idx = match key_slot(key) {
            None => {
                return Err(unsupported_key_error(key));
            },
            Some(i) => i,
        };
        let t = trim(value);
        let slot = if t.unicode_len() > 0 {
            Some(t)
        } else {
            None
        };
        proof {
            lemma_find_key(key@, 0);
            if trimmed(value@).len() > 0 {
                lemma_trimmed_valid(value@);
            }
        }
        let r = self.commit(idx, slot);
        proof {
            if r is Err {
                lemma_store_error_not_unsupported(r->Err_0@, key@);
            }
        }
        r
    }

    /// Removes `key`, with the same write-then-commit order as `set_secret`.
    pub fn delete_secret(&mut self, key: &str) -> (r: Result<(), String>)
        requires
            old(self).wf(),
        ensures
            final(self).wf(),
            !is_supported(key@) ==> r is Err && r->Err_0@ == unsupported_message(key@),
            is_supported(key@) && r is Err ==> is_store_error(r->Err_0@) && r->Err_0@
                != unsupported_message(key@),
            r is Ok ==> final(self).slots() == old(self).slots().update(key_index(key@), None),
            r is Err ==> final(self).slots() == old(self).slots(),
    {
        let idx = match key_slot(key) {
            None => {
                return Err(unsupported_key_error(key));
            },
            Some(i) => i,
        };
        proof {
            lemma_find_key(key@, 0);
        }
        let r = self.commit(idx, None);
        proof {
            if r is Err {
                lemma_store_error_not_unsupported(r->Err_0@, key@);
            }
        }
        r
    }

    fn commit(&mut self, idx: usize, slot: Option<String>) -> (r: Result<(), String>)
        requires
            old(self).wf(),
            idx < KEY_COUNT,
            opt_view(slot) is Some ==> valid_value(opt_view(slot)->Some_0),
        ensures
            final(self).wf(),
            r is Ok ==> final(self).slots() == old(self).slots().update(idx as int, opt_view(slot)),
            r is Err ==> final(self).slots() == old(self).slots() && is_store_error(r->Err_0@),
    {
        let mut proposed = copy_slots(&self.secrets);
        proposed.set(idx, slot);
        assert(slots_view(proposed@) =~= old(self).slots().update(idx as int, opt_view(slot)));
        let entries = present_entry_list(&proposed);
        match save_vault(&entries) {
            Ok(()) => {
                self.secrets = proposed;
                Ok(())
            },
            Err(e) => Err(e),
        }
    }
}

/// Round trip: once `set_secret(k, v)` has succeeded, reading `k` gives `v`
/// trimmed; that is `v` itself when `v` is trimmed and not empty, and a value
/// that trims to nothing leaves `k` absent.
pub proof fn lemma_set_then_get(
    before: SecretsCache,
    after: SecretsCache,
    k: Seq<char>,
    v: Seq<char>,
)
    requires
        before.wf(),
        is_supported(k),
        after.slots() == before.slots().update(key_index(k), written_value(v)),
    ensures
        after.secret_of(k) == written_value(v),
        valid_value(v) ==> after.secret_of(k) == Some(v),
        trimmed(v).len() == 0 ==> after.secret_of(k) is None,
{
    lemma_find_key(k, 0);
}

/// Each allowlist name stands at its own position only.
#[verifier::rlimit(100)]
pub proof fn lemma_keys_distinct()
    ensures
        forall|i: int| 0 <= i < KEY_COUNT ==> key_index(#[trigger] supported_keys()[i]) == i,
{
    let k = supported_keys();
    reveal_strlit("GROQ_API_KEY");
    reveal_strlit("OPENROUTER_API_KEY");
    reveal_strlit("FRED_API_KEY");
    reveal_strlit("EIA_API_KEY");
    reveal_strlit("CLOUDFLARE_API_TOKEN");
    reveal_strlit("ACLED_ACCESS_TOKEN");
    reveal_strlit("URLHAUS_AUTH_KEY");
    reveal_strlit("OTX_API_KEY");
    reveal_strlit("ABUSEIPDB_API_KEY");
    reveal_strlit("WINGBITS_API_KEY");
    reveal_strlit("WS_RELAY_URL");
    reveal_strlit("VITE_OPENSKY_RELAY_URL");
    reveal_strlit("OPENSKY_CLIENT_ID");
    reveal_strlit("OPENSKY_CLIENT_SECRET");
    reveal_strlit("AISSTREAM_API_KEY");
    reveal_strlit("VITE_WS_RELAY_URL");
    reveal_strlit("FINNHUB_API_KEY");
    reveal_strlit("NASA_FIRMS_API_KEY");
    reveal_strlit("OLLAMA_API_URL");
    reveal_strlit("OLLAMA_MODEL");
    reveal_strlit("WORLDMONITOR_API_KEY");
    reveal_strlit("PORTCAST_API_KEY");
    reveal_strlit("GLOBAL_FISHING_WATCH_API_KEY");
    reveal_strlit("ELECTRICITY_MAPS_API_KEY");
    reveal_strlit("LIVEUAMAP_API_KEY");
    assert(k[0].len() == 12);
    assert(k[1].len() == 18);
    assert(k[2].len() == 12);
    assert(k[3].len() == 11);
    assert(k[4].len() == 20);
    assert(k[5].len() == 18);
    assert(k[6].len() == 16);
    assert(k[7].len() == 11);
    assert(k[8].len() == 17);
    assert(k[9].len() == 16);
    assert(k[10].len() == 12);
    assert(k[11].len() == 22);
    assert(k[12].len() == 17);
    assert(k[13].len() == 21);
    assert(k[14].len() == 17);
    assert(k[15].len() == 17);
    assert(k[16].len() == 15);
    assert(k[17].len() == 18);
    assert(k[18].len() == 14);
    assert(k[19].len() == 12);
    assert(k[20].len() == 20);
    assert(k[21].len() == 16);
    assert(k[22].len() == 28);
    assert(k[23].len() == 24);
    assert(k[24].len() == 17);
    assert(k[0][0] != k[2][0]);
    assert(k[1][0] != k[5][0]);
    assert(k[3][0] != k[7][0]);
    assert(k[6][0] != k[9][0]);
    assert(k[0][0] != k[10][0]);
    assert(k[2][0] != k[10][0]);
    assert(k[8][0] != k[12][0]);
    assert(k[8][1] != k[14][1]);
    assert(k[12][0] != k[14][0]);
    assert(k[8][0] != k[15][0]);
    assert(k[12][0] != k[15][0]);
    assert(k[14][0] != k[15][0]);
    assert(k[1][0] != k[17][0]);
    assert(k[5][0] != k[17][0]);
    assert(k[0][0] != k[19][0]);
    assert(k[2][0] != k[19][0]);
    assert(k[10][0] != k[19][0]);
    assert(k[4][0] != k[20][0]);
    assert(k[6][0] != k[21][0]);
    assert(k[9][0] != k[21][0]);
    assert(k[8][0] != k[24][0]);
    assert(k[12][0] != k[24][0]);
    assert(k[14][0] != k[24][0]);
    assert(k[15][0] != k[24][0]);
    reveal_with_fuel(find_key, 26);
    assert(key_index(k[0]) == 0);
    assert(key_index(k[1]) == 1);
    assert(key_index(k[2]) == 2);
    assert(key_index(k[3]) == 3);
    assert(key_index(k[4]) == 4);
    assert(key_index(k[5]) == 5);
    assert(key_index(k[6]) == 6);
    assert(key_index(k[7]) == 7);
    assert(key_index(k[8]) == 8);
    assert(key_index(k[9]) == 9);
    assert(key_index(k[10]) == 10);
    assert(key_index(k[11]) == 11);
    assert(key_index(k[12]) == 12);
    assert(key_index(k[13]) == 13);
    assert(key_index(k[14]) == 14);
    assert(key_index(k[15]) == 15);
    assert(key_index(k[16]) == 16);
    assert(key_index(k[17]) == 17);
    assert(key_index(k[18]) == 18);
    assert(key_index(k[19]) == 19);
    assert(key_index(k[20]) == 20);
    assert(key_index(k[21]) == 21);
    assert(key_index(k[22]) == 22);
    assert(key_index(k[23]) == 23);
    assert(key_index(k[24]) == 24);
    assert forall|i: int| 0 <= i < KEY_COUNT implies key_index(#[trigger] supported_keys()[i]) == i by {
        assert(i == 0 || i == 1 || i == 2 || i == 3 || i == 4 || i == 5 || i == 6 || i == 7 || i == 8 || i == 9 || i == 10 || i == 11 || i == 12 || i == 13 || i == 14 || i == 15 || i == 16 || i == 17 || i == 18 || i == 19 || i == 20 || i == 21 || i == 22 || i == 23 || i == 24);
    }
}

/// The slots a load derives from the store: the consolidated entry when it
/// parses, else the legacy per-name entries (in allowlist order).
pub open spec fn loaded_slots(
    vault: Option<Seq<char>>,
    legacy: Seq<Option<Seq<char>>>,
) -> Seq<Option<Seq<char>>> {
    match vault {
        Some(j) => match parsed_vault(j) {
            Some(e) => slots_from_entries(e),
            None => slots_from_legacy(legacy),
        },
        None => slots_from_legacy(legacy),
    }
}

/// Whether a load falls back to the legacy entries.
pub open spec fn migrates(vault: Option<Seq<char>>) -> bool {
    match vault {
        Some(j) => parsed_vault(j) is None,
        None => true,
    }
}

/// The store after a load whose writes and deletions all succeed, following
/// `next_migration_op`: a migration that found secrets writes the
/// consolidated entry and then deletes every legacy entry; any other load
/// leaves the store as it was.
pub open spec fn store_after_load(
    vault: Option<Seq<char>>,
    legacy: Seq<Option<Seq<char>>>,
) -> (Option<Seq<char>>, Seq<Option<Seq<char>>>) {
    let e = present_entries(loaded_slots(vault, legacy), KEY_COUNT as int);
    if migrates(vault) && e.len() > 0 {
        (Some(vault_json(e)), empty_slots())
    } else {
        (vault, legacy)
    }
}

proof fn lemma_legacy_wf(values: Seq<Option<Seq<char>>>)
    ensures
        slots_well_formed(slots_from_legacy(values)),
{
    assert forall|j: int|
        0 <= j < KEY_COUNT && (#[trigger] slots_from_legacy(values)[j]) is Some implies valid_value(
        slots_from_legacy(values)[j]->Some_0,
    ) by {
        lemma_trimmed_valid(values[j]->Some_0);
    }
}

/// Reading back the pairs of well-formed slots gives the same slots.
proof fn lemma_entries_read_back(c: Seq<Option<Seq<char>>>, n: int)
    requires
        slots_well_formed(c),
        0 <= n <= KEY_COUNT,
    ensures
        slots_from_entries(present_entries(c, n)) == Seq::new(
            KEY_COUNT as nat,
            |i: int|
                if i < n {
                    c[i]
                } else {
                    None
                },
        ),
    decreases n,
{
    lemma_keys_distinct();
    if n == 0 {
        assert(slots_from_entries(present_entries(c, n)) =~= Seq::new(
            KEY_COUNT as nat,
            |i: int|
                if i < n {
                    c[i]
                } else {
                    None
                },
        ));
    } else {
        lemma_entries_read_back(c, n - 1);
        let prev = present_entries(c, n - 1);
        match c[n - 1] {
            Some(v) => {
                let e = prev.push((supported_keys()[n - 1], v));
                assert(e.drop_last() =~= prev);
                assert(key_index(supported_keys()[n - 1]) == n - 1);
                assert(valid_value(c[n - 1]->Some_0));
            },
            None => {},
        }
        assert(slots_from_entries(present_entries(c, n)) =~= Seq::new(
            KEY_COUNT as nat,
            |i: int|
                if i < n {
                    c[i]
                } else {
                    None
                },
        ));
    }
}

/// Migration: when only legacy entries exist, a load that finds secrets
/// writes them as the consolidated entry and leaves no legacy entry behind;
/// a second load then derives the same secrets from that entry (provided it
/// reads back the pairs written) and changes nothing more in the store.
pub proof fn lemma_migration_idempotent(legacy: Seq<Option<Seq<char>>>)
    requires
        legacy.len() == KEY_COUNT,
    ensures
        ({
            let c = loaded_slots(None, legacy);
            let e = present_entries(c, KEY_COUNT as int);
            let after = store_after_load(None, legacy);
            &&& e.len() > 0 ==> after.0 == Some(vault_json(e)) && after.1 == empty_slots()
            &&& e.len() == 0 ==> after == (None::<Seq<char>>, legacy)
            &&& parsed_vault(vault_json(e)) == Some(e) ==> loaded_slots(after.0, after.1) == c
                && store_after_load(after.0, after.1) == after
        }),
{
    let c = loaded_slots(None, legacy);
    lemma_legacy_wf(legacy);
    lemma_entries_read_back(c, KEY_COUNT as int);
    assert(Seq::new(
        KEY_COUNT as nat,
        |i: int|
            if i < KEY_COUNT {
                c[i]
            } else {
                None
            },
    ) =~= c);
}

} // verus!
