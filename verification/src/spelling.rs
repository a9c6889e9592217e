//! The spelling of the words of the format: the `type` vocabulary, the
//! keys of the records and the names of the string formats. A literal's
//! characters are known to the verifier only where they are revealed; each
//! lemma here reveals one word.

use vstd::prelude::*;

verus! {

pub proof fn lemma_spelled_accept()
    ensures
        "accept"@.len() == 6,
        "accept"@[0] == 'a',
        "accept"@[1] == 'c',
        "accept"@[2] == 'c',
        "accept"@[3] == 'e',
        "accept"@[4] == 'p',
        "accept"@[5] == 't',
{
    reveal_strlit("accept");
}

pub proof fn lemma_spelled_array()
    ensures
        "array"@.len() == 5,
        "array"@[0] == 'a',
        "array"@[1] == 'r',
        "array"@[2] == 'r',
        "array"@[3] == 'a',
        "array"@[4] == 'y',
{
    reveal_strlit("array");
}

pub proof fn lemma_spelled_at_identifier()
    ensures
        "at-identifier"@.len() == 13,
        "at-identifier"@[0] == 'a',
        "at-identifier"@[1] == 't',
        "at-identifier"@[2] == '-',
        "at-identifier"@[3] == 'i',
        "at-identifier"@[4] == 'd',
        "at-identifier"@[5] == 'e',
        "at-identifier"@[6] == 'n',
        "at-identifier"@[7] == 't',
        "at-identifier"@[8] == 'i',
        "at-identifier"@[9] == 'f',
        "at-identifier"@[10] == 'i',
        "at-identifier"@[11] == 'e',
        "at-identifier"@[12] == 'r',
{
    reveal_strlit("at-identifier");
}

pub proof fn lemma_spelled_at_uri()
    ensures
        "at-uri"@.len() == 6,
        "at-uri"@[0] == 'a',
        "at-uri"@[1] == 't',
        "at-uri"@[2] == '-',
        "at-uri"@[3] == 'u',
        "at-uri"@[4] == 'r',
        "at-uri"@[5] == 'i',
{
    reveal_strlit("at-uri");
}

pub proof fn lemma_spelled_blob()
    ensures
        "blob"@.len() == 4,
        "blob"@[0] == 'b',
        "blob"@[1] == 'l',
        "blob"@[2] == 'o',
        "blob"@[3] == 'b',
{
    reveal_strlit("blob");
}

pub proof fn lemma_spelled_boolean()
    ensures
        "boolean"@.len() == 7,
        "boolean"@[0] == 'b',
        "boolean"@[1] == 'o',
        "boolean"@[2] == 'o',
        "boolean"@[3] == 'l',
        "boolean"@[4] == 'e',
        "boolean"@[5] == 'a',
        "boolean"@[6] == 'n',
{
    reveal_strlit("boolean");
}

pub proof fn lemma_spelled_bytes()
    ensures
        "bytes"@.len() == 5,
        "bytes"@[0] == 'b',
        "bytes"@[1] == 'y',
        "bytes"@[2] == 't',
        "bytes"@[3] == 'e',
        "bytes"@[4] == 's',
{
    reveal_strlit("bytes");
}

pub proof fn lemma_spelled_cid()
    ensures
        "cid"@.len() == 3,
        "cid"@[0] == 'c',
        "cid"@[1] == 'i',
        "cid"@[2] == 'd',
{
    reveal_strlit("cid");
}

pub proof fn lemma_spelled_cid_link()
    ensures
        "cid-link"@.len() == 8,
        "cid-link"@[0] == 'c',
        "cid-link"@[1] == 'i',
        "cid-link"@[2] == 'd',
        "cid-link"@[3] == '-',
        "cid-link"@[4] == 'l',
        "cid-link"@[5] == 'i',
        "cid-link"@[6] == 'n',
        "cid-link"@[7] == 'k',
{
    reveal_strlit("cid-link");
}

pub proof fn lemma_spelled_closed()
    ensures
        "closed"@.len() == 6,
        "closed"@[0] == 'c',
        "closed"@[1] == 'l',
        "closed"@[2] == 'o',
        "closed"@[3] == 's',
        "closed"@[4] == 'e',
        "closed"@[5] == 'd',
{
    reveal_strlit("closed");
}

pub proof fn lemma_spelled_const()
    ensures
        "const"@.len() == 5,
        "const"@[0] == 'c',
        "const"@[1] == 'o',
        "const"@[2] == 'n',
        "const"@[3] == 's',
        "const"@[4] == 't',
{
    reveal_strlit("const");
}

pub proof fn lemma_spelled_datetime()
    ensures
        "datetime"@.len() == 8,
        "datetime"@[0] == 'd',
        "datetime"@[1] == 'a',
        "datetime"@[2] == 't',
        "datetime"@[3] == 'e',
        "datetime"@[4] == 't',
        "datetime"@[5] == 'i',
        "datetime"@[6] == 'm',
        "datetime"@[7] == 'e',
{
    reveal_strlit("datetime");
}

pub proof fn lemma_spelled_default()
    ensures
        "default"@.len() == 7,
        "default"@[0] == 'd',
        "default"@[1] == 'e',
        "default"@[2] == 'f',
        "default"@[3] == 'a',
        "default"@[4] == 'u',
        "default"@[5] == 'l',
        "default"@[6] == 't',
{
    reveal_strlit("default");
}

pub proof fn lemma_spelled_defs()
    ensures
        "defs"@.len() == 4,
        "defs"@[0] == 'd',
        "defs"@[1] == 'e',
        "defs"@[2] == 'f',
        "defs"@[3] == 's',
{
    reveal_strlit("defs");
}

pub proof fn lemma_spelled_description()
    ensures
        "description"@.len() == 11,
        "description"@[0] == 'd',
        "description"@[1] == 'e',
        "description"@[2] == 's',
        "description"@[3] == 'c',
        "description"@[4] == 'r',
        "description"@[5] == 'i',
        "description"@[6] == 'p',
        "description"@[7] == 't',
        "description"@[8] == 'i',
        "description"@[9] == 'o',
        "description"@[10] == 'n',
{
    reveal_strlit("description");
}

pub proof fn lemma_spelled_did()
    ensures
        "did"@.len() == 3,
        "did"@[0] == 'd',
        "did"@[1] == 'i',
        "did"@[2] == 'd',
{
    reveal_strlit("did");
}

pub proof fn lemma_spelled_encoding()
    ensures
        "encoding"@.len() == 8,
        "encoding"@[0] == 'e',
        "encoding"@[1] == 'n',
        "encoding"@[2] == 'c',
        "encoding"@[3] == 'o',
        "encoding"@[4] == 'd',
        "encoding"@[5] == 'i',
        "encoding"@[6] == 'n',
        "encoding"@[7] == 'g',
{
    reveal_strlit("encoding");
}

pub proof fn lemma_spelled_enum()
    ensures
        "enum"@.len() == 4,
        "enum"@[0] == 'e',
        "enum"@[1] == 'n',
        "enum"@[2] == 'u',
        "enum"@[3] == 'm',
{
    reveal_strlit("enum");
}

pub proof fn lemma_spelled_errors()
    ensures
        "errors"@.len() == 6,
        "errors"@[0] == 'e',
        "errors"@[1] == 'r',
        "errors"@[2] == 'r',
        "errors"@[3] == 'o',
        "errors"@[4] == 'r',
        "errors"@[5] == 's',
{
    reveal_strlit("errors");
}

pub proof fn lemma_spelled_format()
    ensures
        "format"@.len() == 6,
        "format"@[0] == 'f',
        "format"@[1] == 'o',
        "format"@[2] == 'r',
        "format"@[3] == 'm',
        "format"@[4] == 'a',
        "format"@[5] == 't',
{
    reveal_strlit("format");
}

pub proof fn lemma_spelled_handle()
    ensures
        "handle"@.len() == 6,
        "handle"@[0] == 'h',
        "handle"@[1] == 'a',
        "handle"@[2] == 'n',
        "handle"@[3] == 'd',
        "handle"@[4] == 'l',
        "handle"@[5] == 'e',
{
    reveal_strlit("handle");
}

pub proof fn lemma_spelled_id()
    ensures
        "id"@.len() == 2,
        "id"@[0] == 'i',
        "id"@[1] == 'd',
{
    reveal_strlit("id");
}

pub proof fn lemma_spelled_infos()
    ensures
        "infos"@.len() == 5,
        "infos"@[0] == 'i',
        "infos"@[1] == 'n',
        "infos"@[2] == 'f',
        "infos"@[3] == 'o',
        "infos"@[4] == 's',
{
    reveal_strlit("infos");
}

pub proof fn lemma_spelled_input()
    ensures
        "input"@.len() == 5,
        "input"@[0] == 'i',
        "input"@[1] == 'n',
        "input"@[2] == 'p',
        "input"@[3] == 'u',
        "input"@[4] == 't',
{
    reveal_strlit("input");
}

pub proof fn lemma_spelled_integer()
    ensures
        "integer"@.len() == 7,
        "integer"@[0] == 'i',
        "integer"@[1] == 'n',
        "integer"@[2] == 't',
        "integer"@[3] == 'e',
        "integer"@[4] == 'g',
        "integer"@[5] == 'e',
        "integer"@[6] == 'r',
{
    reveal_strlit("integer");
}

pub proof fn lemma_spelled_items()
    ensures
        "items"@.len() == 5,
        "items"@[0] == 'i',
        "items"@[1] == 't',
        "items"@[2] == 'e',
        "items"@[3] == 'm',
        "items"@[4] == 's',
{
    reveal_strlit("items");
}

pub proof fn lemma_spelled_key()
    ensures
        "key"@.len() == 3,
        "key"@[0] == 'k',
        "key"@[1] == 'e',
        "key"@[2] == 'y',
{
    reveal_strlit("key");
}

pub proof fn lemma_spelled_known_values()
    ensures
        "knownValues"@.len() == 11,
        "knownValues"@[0] == 'k',
        "knownValues"@[1] == 'n',
        "knownValues"@[2] == 'o',
        "knownValues"@[3] == 'w',
        "knownValues"@[4] == 'n',
        "knownValues"@[5] == 'V',
        "knownValues"@[6] == 'a',
        "knownValues"@[7] == 'l',
        "knownValues"@[8] == 'u',
        "knownValues"@[9] == 'e',
        "knownValues"@[10] == 's',
{
    reveal_strlit("knownValues");
}

pub proof fn lemma_spelled_lexicon()
    ensures
        "lexicon"@.len() == 7,
        "lexicon"@[0] == 'l',
        "lexicon"@[1] == 'e',
        "lexicon"@[2] == 'x',
        "lexicon"@[3] == 'i',
        "lexicon"@[4] == 'c',
        "lexicon"@[5] == 'o',
        "lexicon"@[6] == 'n',
{
    reveal_strlit("lexicon");
}

pub proof fn lemma_spelled_max_graphemes()
    ensures
        "maxGraphemes"@.len() == 12,
        "maxGraphemes"@[0] == 'm',
        "maxGraphemes"@[1] == 'a',
        "maxGraphemes"@[2] == 'x',
        "maxGraphemes"@[3] == 'G',
        "maxGraphemes"@[4] == 'r',
        "maxGraphemes"@[5] == 'a',
        "maxGraphemes"@[6] == 'p',
        "maxGraphemes"@[7] == 'h',
        "maxGraphemes"@[8] == 'e',
        "maxGraphemes"@[9] == 'm',
        "maxGraphemes"@[10] == 'e',
        "maxGraphemes"@[11] == 's',
{
    reveal_strlit("maxGraphemes");
}

pub proof fn lemma_spelled_max_length()
    ensures
        "maxLength"@.len() == 9,
        "maxLength"@[0] == 'm',
        "maxLength"@[1] == 'a',
        "maxLength"@[2] == 'x',
        "maxLength"@[3] == 'L',
        "maxLength"@[4] == 'e',
        "maxLength"@[5] == 'n',
        "maxLength"@[6] == 'g',
        "maxLength"@[7] == 't',
        "maxLength"@[8] == 'h',
{
    reveal_strlit("maxLength");
}

pub proof fn lemma_spelled_max_size()
    ensures
        "maxSize"@.len() == 7,
        "maxSize"@[0] == 'm',
        "maxSize"@[1] == 'a',
        "maxSize"@[2] == 'x',
        "maxSize"@[3] == 'S',
        "maxSize"@[4] == 'i',
        "maxSize"@[5] == 'z',
        "maxSize"@[6] == 'e',
{
    reveal_strlit("maxSize");
}

pub proof fn lemma_spelled_maximum()
    ensures
        "maximum"@.len() == 7,
        "maximum"@[0] == 'm',
        "maximum"@[1] == 'a',
        "maximum"@[2] == 'x',
        "maximum"@[3] == 'i',
        "maximum"@[4] == 'm',
        "maximum"@[5] == 'u',
        "maximum"@[6] == 'm',
{
    reveal_strlit("maximum");
}

pub proof fn lemma_spelled_message()
    ensures
        "message"@.len() == 7,
        "message"@[0] == 'm',
        "message"@[1] == 'e',
        "message"@[2] == 's',
        "message"@[3] == 's',
        "message"@[4] == 'a',
        "message"@[5] == 'g',
        "message"@[6] == 'e',
{
    reveal_strlit("message");
}

pub proof fn lemma_spelled_min_graphemes()
    ensures
        "minGraphemes"@.len() == 12,
        "minGraphemes"@[0] == 'm',
        "minGraphemes"@[1] == 'i',
        "minGraphemes"@[2] == 'n',
        "minGraphemes"@[3] == 'G',
        "minGraphemes"@[4] == 'r',
        "minGraphemes"@[5] == 'a',
        "minGraphemes"@[6] == 'p',
        "minGraphemes"@[7] == 'h',
        "minGraphemes"@[8] == 'e',
        "minGraphemes"@[9] == 'm',
        "minGraphemes"@[10] == 'e',
        "minGraphemes"@[11] == 's',
{
    reveal_strlit("minGraphemes");
}

pub proof fn lemma_spelled_min_length()
    ensures
        "minLength"@.len() == 9,
        "minLength"@[0] == 'm',
        "minLength"@[1] == 'i',
        "minLength"@[2] == 'n',
        "minLength"@[3] == 'L',
        "minLength"@[4] == 'e',
        "minLength"@[5] == 'n',
        "minLength"@[6] == 'g',
        "minLength"@[7] == 't',
        "minLength"@[8] == 'h',
{
    reveal_strlit("minLength");
}

pub proof fn lemma_spelled_minimum()
    ensures
        "minimum"@.len() == 7,
        "minimum"@[0] == 'm',
        "minimum"@[1] == 'i',
        "minimum"@[2] == 'n',
        "minimum"@[3] == 'i',
        "minimum"@[4] == 'm',
        "minimum"@[5] == 'u',
        "minimum"@[6] == 'm',
{
    reveal_strlit("minimum");
}

pub proof fn lemma_spelled_name()
    ensures
        "name"@.len() == 4,
        "name"@[0] == 'n',
        "name"@[1] == 'a',
        "name"@[2] == 'm',
        "name"@[3] == 'e',
{
    reveal_strlit("name");
}

pub proof fn lemma_spelled_nsid()
    ensures
        "nsid"@.len() == 4,
        "nsid"@[0] == 'n',
        "nsid"@[1] == 's',
        "nsid"@[2] == 'i',
        "nsid"@[3] == 'd',
{
    reveal_strlit("nsid");
}

pub proof fn lemma_spelled_nullable()
    ensures
        "nullable"@.len() == 8,
        "nullable"@[0] == 'n',
        "nullable"@[1] == 'u',
        "nullable"@[2] == 'l',
        "nullable"@[3] == 'l',
        "nullable"@[4] == 'a',
        "nullable"@[5] == 'b',
        "nullable"@[6] == 'l',
        "nullable"@[7] == 'e',
{
    reveal_strlit("nullable");
}

pub proof fn lemma_spelled_object()
    ensures
        "object"@.len() == 6,
        "object"@[0] == 'o',
        "object"@[1] == 'b',
        "object"@[2] == 'j',
        "object"@[3] == 'e',
        "object"@[4] == 'c',
        "object"@[5] == 't',
{
    reveal_strlit("object");
}

pub proof fn lemma_spelled_output()
    ensures
        "output"@.len() == 6,
        "output"@[0] == 'o',
        "output"@[1] == 'u',
        "output"@[2] == 't',
        "output"@[3] == 'p',
        "output"@[4] == 'u',
        "output"@[5] == 't',
{
    reveal_strlit("output");
}

pub proof fn lemma_spelled_parameters()
    ensures
        "parameters"@.len() == 10,
        "parameters"@[0] == 'p',
        "parameters"@[1] == 'a',
        "parameters"@[2] == 'r',
        "parameters"@[3] == 'a',
        "parameters"@[4] == 'm',
        "parameters"@[5] == 'e',
        "parameters"@[6] == 't',
        "parameters"@[7] == 'e',
        "parameters"@[8] == 'r',
        "parameters"@[9] == 's',
{
    reveal_strlit("parameters");
}

pub proof fn lemma_spelled_params()
    ensures
        "params"@.len() == 6,
        "params"@[0] == 'p',
        "params"@[1] == 'a',
        "params"@[2] == 'r',
        "params"@[3] == 'a',
        "params"@[4] == 'm',
        "params"@[5] == 's',
{
    reveal_strlit("params");
}

pub proof fn lemma_spelled_procedure()
    ensures
        "procedure"@.len() == 9,
        "procedure"@[0] == 'p',
        "procedure"@[1] == 'r',
        "procedure"@[2] == 'o',
        "procedure"@[3] == 'c',
        "procedure"@[4] == 'e',
        "procedure"@[5] == 'd',
        "procedure"@[6] == 'u',
        "procedure"@[7] == 'r',
        "procedure"@[8] == 'e',
{
    reveal_strlit("procedure");
}

pub proof fn lemma_spelled_properties()
    ensures
        "properties"@.len() == 10,
        "properties"@[0] == 'p',
        "properties"@[1] == 'r',
        "properties"@[2] == 'o',
        "properties"@[3] == 'p',
        "properties"@[4] == 'e',
        "properties"@[5] == 'r',
        "properties"@[6] == 't',
        "properties"@[7] == 'i',
        "properties"@[8] == 'e',
        "properties"@[9] == 's',
{
    reveal_strlit("properties");
}

pub proof fn lemma_spelled_query()
    ensures
        "query"@.len() == 5,
        "query"@[0] == 'q',
        "query"@[1] == 'u',
        "query"@[2] == 'e',
        "query"@[3] == 'r',
        "query"@[4] == 'y',
{
    reveal_strlit("query");
}

pub proof fn lemma_spelled_record()
    ensures
        "record"@.len() == 6,
        "record"@[0] == 'r',
        "record"@[1] == 'e',
        "record"@[2] == 'c',
        "record"@[3] == 'o',
        "record"@[4] == 'r',
        "record"@[5] == 'd',
{
    reveal_strlit("record");
}

pub proof fn lemma_spelled_ref()
    ensures
        "ref"@.len() == 3,
        "ref"@[0] == 'r',
        "ref"@[1] == 'e',
        "ref"@[2] == 'f',
{
    reveal_strlit("ref");
}

pub proof fn lemma_spelled_refs()
    ensures
        "refs"@.len() == 4,
        "refs"@[0] == 'r',
        "refs"@[1] == 'e',
        "refs"@[2] == 'f',
        "refs"@[3] == 's',
{
    reveal_strlit("refs");
}

pub proof fn lemma_spelled_required()
    ensures
        "required"@.len() == 8,
        "required"@[0] == 'r',
        "required"@[1] == 'e',
        "required"@[2] == 'q',
        "required"@[3] == 'u',
        "required"@[4] == 'i',
        "required"@[5] == 'r',
        "required"@[6] == 'e',
        "required"@[7] == 'd',
{
    reveal_strlit("required");
}

pub proof fn lemma_spelled_revision()
    ensures
        "revision"@.len() == 8,
        "revision"@[0] == 'r',
        "revision"@[1] == 'e',
        "revision"@[2] == 'v',
        "revision"@[3] == 'i',
        "revision"@[4] == 's',
        "revision"@[5] == 'i',
        "revision"@[6] == 'o',
        "revision"@[7] == 'n',
{
    reveal_strlit("revision");
}

pub proof fn lemma_spelled_schema()
    ensures
        "schema"@.len() == 6,
        "schema"@[0] == 's',
        "schema"@[1] == 'c',
        "schema"@[2] == 'h',
        "schema"@[3] == 'e',
        "schema"@[4] == 'm',
        "schema"@[5] == 'a',
{
    reveal_strlit("schema");
}

pub proof fn lemma_spelled_string()
    ensures
        "string"@.len() == 6,
        "string"@[0] == 's',
        "string"@[1] == 't',
        "string"@[2] == 'r',
        "string"@[3] == 'i',
        "string"@[4] == 'n',
        "string"@[5] == 'g',
{
    reveal_strlit("string");
}

pub proof fn lemma_spelled_subscription()
    ensures
        "subscription"@.len() == 12,
        "subscription"@[0] == 's',
        "subscription"@[1] == 'u',
        "subscription"@[2] == 'b',
        "subscription"@[3] == 's',
        "subscription"@[4] == 'c',
        "subscription"@[5] == 'r',
        "subscription"@[6] == 'i',
        "subscription"@[7] == 'p',
        "subscription"@[8] == 't',
        "subscription"@[9] == 'i',
        "subscription"@[10] == 'o',
        "subscription"@[11] == 'n',
{
    reveal_strlit("subscription");
}

pub proof fn lemma_spelled_token()
    ensures
        "token"@.len() == 5,
        "token"@[0] == 't',
        "token"@[1] == 'o',
        "token"@[2] == 'k',
        "token"@[3] == 'e',
        "token"@[4] == 'n',
{
    reveal_strlit("token");
}

pub proof fn lemma_spelled_type()
    ensures
        "type"@.len() == 4,
        "type"@[0] == 't',
        "type"@[1] == 'y',
        "type"@[2] == 'p',
        "type"@[3] == 'e',
{
    reveal_strlit("type");
}

pub proof fn lemma_spelled_union()
    ensures
        "union"@.len() == 5,
        "union"@[0] == 'u',
        "union"@[1] == 'n',
        "union"@[2] == 'i',
        "union"@[3] == 'o',
        "union"@[4] == 'n',
{
    reveal_strlit("union");
}

pub proof fn lemma_spelled_unknown()
    ensures
        "unknown"@.len() == 7,
        "unknown"@[0] == 'u',
        "unknown"@[1] == 'n',
        "unknown"@[2] == 'k',
        "unknown"@[3] == 'n',
        "unknown"@[4] == 'o',
        "unknown"@[5] == 'w',
        "unknown"@[6] == 'n',
{
    reveal_strlit("unknown");
}

pub proof fn lemma_spelled_uri()
    ensures
        "uri"@.len() == 3,
        "uri"@[0] == 'u',
        "uri"@[1] == 'r',
        "uri"@[2] == 'i',
{
    reveal_strlit("uri");
}

} // verus!
