//! The API identity model: the closed set of API keys with their stable
//! numeric wire codes, the per-API version ranges, and the read-only
//! registry the dispatcher consults. The registry is built once at startup
//! and passed by reference; it is never mutated afterwards.

use vstd::prelude::*;

use crate::codec::EncodeToBytes;
use crate::wire::spec_i16_be;

verus! {

/// No error.
pub const ERROR_NONE: i16 = 0;

/// The named topic or partition does not exist on this broker.
pub const ERROR_UNKNOWN_TOPIC_OR_PARTITION: i16 = 3;

/// The requested API version is outside the supported range.
pub const ERROR_UNSUPPORTED_VERSION: i16 = 35;

/// The request was malformed at the protocol level.
pub const ERROR_INVALID_REQUEST: i16 = 42;

/// The generic error code of a response to an API this broker does not
/// recognise at all.
pub const ERROR_GENERIC_UNSUPPORTED: i16 = -1;

/// The closed set of API keys this broker knows. The first is reserved
/// but unimplemented; the other two have handlers.
#[derive(Debug, Clone, Copy, PartialEq, Eq, Structural)]
pub enum KafApiKey {
    Fetch,
    ApiVersions,
    DescribeTopicPartitions,
}

impl DeepView for KafApiKey {
    type V = KafApiKey;

    open spec fn deep_view(&self) -> KafApiKey {
        *self
    }
}

impl KafApiKey {
    /// The key's stable numeric code on the wire.
    pub open spec fn spec_code(self) -> i16 {
        match self {
            KafApiKey::Fetch => 1i16,
            KafApiKey::ApiVersions => 18i16,
            KafApiKey::DescribeTopicPartitions => 75i16,
        }
    }

    /// The key's stable numeric code on the wire.
    pub fn code(&self) -> (c: i16)
        ensures
            c == self.spec_code(),
    {
        match self {
            KafApiKey::Fetch => 1,
            KafApiKey::ApiVersions => 18,
            KafApiKey::DescribeTopicPartitions => 75,
        }
    }

    /// The key a numeric code names, if this broker knows it.
    pub open spec fn spec_from_code(c: i16) -> Option<KafApiKey> {
        if c == 1 {
            Some(KafApiKey::Fetch)
        } else if c == 18 {
            Some(KafApiKey::ApiVersions)
        } else if c == 75 {
            Some(KafApiKey::DescribeTopicPartitions)
        } else {
            None
        }
    }

    /// The key a numeric code names, if this broker knows it.
    pub fn from_code(c: i16) -> (r: Option<KafApiKey>)
        ensures
            r == Self::spec_from_code(c),
    {
        if c == 1 {
            Some(KafApiKey::Fetch)
        } else if c == 18 {
            Some(KafApiKey::ApiVersions)
        } else if c == 75 {
            Some(KafApiKey::DescribeTopicPartitions)
        } else {
            None
        }
    }
}

/// A key's numeric code names that key and no other: the code round-trips.
pub proof fn lemma_api_key_code_round_trip(k: KafApiKey)
    ensures
        KafApiKey::spec_from_code(k.spec_code()) == Some(k),
{
}

impl EncodeToBytes for KafApiKey {
    open spec fn spec_enc_wf(v: KafApiKey) -> bool {
        true
    }

    open spec fn spec_encode(v: KafApiKey) -> Seq<u8> {
        spec_i16_be(v.spec_code())
    }

    fn encode_to_bytes(&self) -> (r: Vec<u8>) {
        self.code().encode_to_bytes()
    }
}

/// One row of the registry: an API key and the closed range of versions
/// implemented for it, plus the entry's empty tagged-field byte.
#[derive(Debug, Clone, Copy, PartialEq, Eq, Structural)]
pub struct ApiVersionEntry {
    pub api_key: KafApiKey,
    pub min_version: i16,
    pub max_version: i16,
    pub _tagged_fields: u8,
}

impl DeepView for ApiVersionEntry {
    type V = ApiVersionEntry;

    open spec fn deep_view(&self) -> ApiVersionEntry {
        *self
    }
}

impl ApiVersionEntry {
    /// An entry with the given key and range and an empty tag buffer.
    pub fn new(api_key: KafApiKey, min_version: i16, max_version: i16) -> (r: ApiVersionEntry)
        ensures
            r == (ApiVersionEntry { api_key, min_version, max_version, _tagged_fields: 0u8 }),
    {
        ApiVersionEntry { api_key, min_version, max_version, _tagged_fields: 0u8 }
    }
}

impl EncodeToBytes for ApiVersionEntry {
    open spec fn spec_enc_wf(v: ApiVersionEntry) -> bool {
        true
    }

    open spec fn spec_encode(v: ApiVersionEntry) -> Seq<u8> {
        spec_i16_be(v.api_key.spec_code()) + spec_i16_be(v.min_version) + spec_i16_be(v.max_version)
            + seq![v._tagged_fields]
    }

    fn encode_to_bytes(&self) -> (r: Vec<u8>) {
        let mut out = self.api_key.encode_to_bytes();
        let mut mn = self.min_version.encode_to_bytes();
        let mut mx = self.max_version.encode_to_bytes();
        out.append(&mut mn);
        out.append(&mut mx);
        out.push(self._tagged_fields);
        assert(out@ =~= Self::spec_encode(*self));
        out
    }
}

/// The first registry entry whose key is `key`, if any.
pub open spec fn spec_find_entry(entries: Seq<ApiVersionEntry>, key: KafApiKey) -> Option<
    ApiVersionEntry,
>
    decreases entries.len(),
{
    if entries.len() == 0 {
        None
    } else if entries[0].api_key == key {
        Some(entries[0])
    } else {
        spec_find_entry(entries.skip(1), key)
    }
}

/// The read-only table of supported APIs, keyed by API key.
pub struct ApiRegistry {
    pub entries: Vec<ApiVersionEntry>,
}

impl ApiRegistry {
    /// Each key appears at most once.
    pub open spec fn wf(&self) -> bool {
        forall|i: int, j: int|
            0 <= i < j < self.entries@.len() ==> (#[trigger] self.entries@[i]).api_key != (
            #[trigger] self.entries@[j]).api_key
    }

    /// Whether `version` of the API named `key` is implemented: the key is
    /// present and the version lies inside its closed range.
    pub open spec fn spec_is_version_supported(&self, key: KafApiKey, version: i16) -> bool {
        match spec_find_entry(self.entries@, key) {
            Some(e) => e.min_version <= version <= e.max_version,
            None => false,
        }
    }

    /// Looks the key up in the registry.
    pub fn lookup(&self, key: KafApiKey) -> (r: Option<ApiVersionEntry>)
        ensures
            r == spec_find_entry(self.entries@, key),
    {
        let mut i: usize = 0;
        assert(self.entries@.skip(0) =~= self.entries@);
        while i < self.entries.len()
            invariant
                i <= self.entries@.len(),
                spec_find_entry(self.entries@, key) == spec_find_entry(
                    self.entries@.skip(i as int),
                    key,
                ),
            decreases self.entries@.len() - i,
        {
            if self.entries[i].api_key == key {
                assert(self.entries@.skip(i as int)[0] == self.entries@[i as int]);
                return Some(self.entries[i]);
            }
            proof {
                assert(self.entries@.skip(i as int)[0] == self.entries@[i as int]);
                assert(self.entries@.skip(i as int).skip(1) =~= self.entries@.skip(i + 1));
            }
            i = i + 1;
        }
        assert(self.entries@.skip(i as int) =~= Seq::<ApiVersionEntry>::empty());
        None
    }
}

/// Whether `api_version` of the API named `api_key` is one the registry
/// implements: false when the key is absent (the API is unimplemented),
/// and false when the key is present but the version lies outside its range.
pub fn is_api_version_compatible(registry: &ApiRegistry, api_key: KafApiKey, api_version: i16) -> (r:
    bool)
    ensures
        r == registry.spec_is_version_supported(api_key, api_version),
{
    match registry.lookup(api_key) {
        Some(entry) => entry.min_version <= api_version && api_version <= entry.max_version,
        None => false,
    }
}

/// The table this broker starts with: ApiVersions at versions 0 through 4,
/// DescribeTopicPartitions at version 0 only.
pub fn supported_api_registry() -> (r: ApiRegistry)
    ensures
        r.wf(),
        r.entries@.len() == 2,
        r.entries@[0] == (ApiVersionEntry {
            api_key: KafApiKey::ApiVersions,
            min_version: 0i16,
            max_version: 4i16,
            _tagged_fields: 0u8,
        }),
        r.entries@[1] == (ApiVersionEntry {
            api_key: KafApiKey::DescribeTopicPartitions,
            min_version: 0i16,
            max_version: 0i16,
            _tagged_fields: 0u8,
        }),
{
    let mut entries: Vec<ApiVersionEntry> = Vec::new();
    entries.push(ApiVersionEntry::new(KafApiKey::ApiVersions, 0, 4));
    entries.push(ApiVersionEntry::new(KafApiKey::DescribeTopicPartitions, 0, 0));
    ApiRegistry { entries }
}

} // verus!
