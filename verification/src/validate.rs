//! The client protocol: a request `HEADER;ARMOURED-PGP-MESSAGE\r\n\r\n` is checked,
//! and its decrypted JSON content decides the reply.

use vstd::prelude::*;
use vstd::string::StringExecFns;
use vstd::string::StringSliceAdditionalSpecFns;

use crate::json::{
    json_from_slice, json_is_null, json_pointer, json_pointers, json_to_string,
    spec_json_error_text, spec_json_parse,
};
use crate::text::{
    chars_of, find_char, first_index, lemma_first_index, lemma_first_index_unique,
    lemma_trim_end_all, seq_contains_sub, spec_utf8_lossy,
    push_char, str_contains, string_from_range, trim_end_all, utf8_lossy,
};

verus! {

/// Start token of PGP-armoured encrypted data.
pub const START_OF_PGP_MSG: &'static str = "-----BEGIN PGP MESSAGE-----";

/// End token of PGP-armoured encrypted data.
pub const END_OF_PGP_MSG: &'static str = "-----END PGP MESSAGE-----";

/// The header a client request carries.
pub const CLIENT_HEADER: &'static str = "PGP_CHK_REQ";

/// JSON pointer of the organisation in the decrypted data.
pub const JS_ORG: &'static str = "/org";

/// JSON pointer of the organisation key in the decrypted data.
pub const JS_ORG_KEY: &'static str = "/license/org_key";

/// JSON pointer of the client key in the decrypted data.
pub const JS_CLIENT_KEY: &'static str = "/license/client_key";

/// Largest client message read at once.
pub const MAX_BUF_SIZE: usize = 4096;

/// The reply to a request that is refused.
pub const CLIENT_FAIL_REPLY: &'static str = "unknown request\r\n\r\n";

/// The terminator that trails a client request.
pub open spec fn crlf_crlf() -> Seq<char> {
    seq!['\r', '\n', '\r', '\n']
}

/// The header of a client message: the text before its first `;`.
pub open spec fn spec_msg_header(s: Seq<char>) -> Seq<char> {
    s.take(first_index(s, ';'))
}

/// The data of a client message: the text between its first and second `;`
/// (or the end), with every trailing `\r\n\r\n` removed.
pub open spec fn spec_msg_data(s: Seq<char>) -> Seq<char> {
    let rest = s.skip(first_index(s, ';') + 1);
    trim_end_all(rest.take(first_index(rest, ';')), crlf_crlf())
}

/// Why a client message cannot be read.
#[derive(Clone, Debug, PartialEq, Eq)]
pub enum ProtocolError {
    /// The message holds no `;` between header and data.
    MissingSeparator,
}

/// End of `cs[lo..hi]` once every trailing `\r\n\r\n` is removed.
fn trim_crlf_crlf_end(cs: &Vec<char>, lo: usize, hi: usize) -> (end: usize)
    requires
        lo <= hi <= cs@.len(),
    ensures
        lo <= end <= hi,
        cs@.subrange(lo as int, end as int) == trim_end_all(
            cs@.subrange(lo as int, hi as int),
            crlf_crlf(),
        ),
{
    let mut end: usize = hi;
    while end - lo >= 4 && cs[end - 4] == '\r' && cs[end - 3] == '\n' && cs[end - 2] == '\r'
        && cs[end - 1] == '\n'
        invariant
            lo <= end <= hi,
            hi <= cs@.len(),
            trim_end_all(cs@.subrange(lo as int, hi as int), crlf_crlf()) == trim_end_all(
                cs@.subrange(lo as int, end as int),
                crlf_crlf(),
            ),
        decreases end,
    {
        let ghost cur = cs@.subrange(lo as int, end as int);
        assert(cur.subrange(cur.len() - 4, cur.len() as int) =~= crlf_crlf());
        assert(cur.take(cur.len() - 4) =~= cs@.subrange(lo as int, end - 4));
        end = end - 4;
    }
    proof {
        let cur = cs@.subrange(lo as int, end as int);
        if 4 <= cur.len() && cur.subrange(cur.len() - 4, cur.len() as int) == crlf_crlf() {
            assert(cur.subrange(cur.len() - 4, cur.len() as int)[0] == cs@[end - 4]);
            assert(cur.subrange(cur.len() - 4, cur.len() as int)[1] == cs@[end - 3]);
            assert(cur.subrange(cur.len() - 4, cur.len() as int)[2] == cs@[end - 2]);
            assert(cur.subrange(cur.len() - 4, cur.len() as int)[3] == cs@[end - 1]);
        }
    }
    end
}

/// Splits message characters holding a `;` into header and data.
fn split_chars(cs: &Vec<char>) -> (res: (String, String))
    requires
        cs@.contains(';'),
    ensures
        res.0@ == spec_msg_header(cs@),
        res.1@ == spec_msg_data(cs@),
{
    proof {
        lemma_first_index(cs@, ';');
        assert(cs@.skip(0) =~= cs@);
    }
    let i: usize = find_char(cs, 0, ';');
    assert(i < cs.len());
    let j: usize = find_char(cs, i + 1, ';');
    let ghost rest = cs@.skip(i + 1);
    assert(rest.take(first_index(rest, ';')) =~= cs@.subrange(i + 1, j as int));
    let end: usize = trim_crlf_crlf_end(cs, i + 1, j);
    let header = string_from_range(cs, 0, i);
    let data = string_from_range(cs, i + 1, end);
    assert(cs@.subrange(0, i as int) =~= cs@.take(i as int));
    (header, data)
}

/// Splits a client message into its header and its data, as
/// `split(';')` followed by `trim_end_matches("\r\n\r\n")` on the second field.
pub fn split_client_msg(text: &str) -> (res: (String, String))
    requires
        text@.contains(';'),
    ensures
        res.0@ == spec_msg_header(text@),
        res.1@ == spec_msg_data(text@),
{
    let cs = chars_of(text);
    split_chars(&cs)
}

/// Whether a decrypted client document is accepted: it parses as JSON and holds
/// an organisation, an organisation key and a client key (a `null` document
/// holds none of them).
pub open spec fn spec_decrypted_data_valid(msg: Seq<u8>) -> bool {
    match spec_json_parse(msg) {
        None => false,
        Some((pointers, _text)) => {
            &&& pointers.dom().contains(JS_ORG@)
            &&& pointers.dom().contains(JS_ORG_KEY@)
            &&& pointers.dom().contains(JS_CLIENT_KEY@)
        },
    }
}

/// The bytes sent back for a decrypted client document: the compact JSON text
/// when it is accepted, nothing when it is not a JSON document or is `null`, the
/// refusal otherwise.
pub open spec fn spec_decrypted_data_reply(msg: Seq<u8>) -> Seq<u8> {
    match spec_json_parse(msg) {
        None => seq![],
        Some((_pointers, text)) => if spec_decrypted_data_valid(msg) {
            vstd::utf8::encode_utf8(text)
        } else if text == seq!['n', 'u', 'l', 'l'] {
            seq![]
        } else {
            CLIENT_FAIL_REPLY.spec_bytes()
        },
    }
}

/// Looks `item` up in the decrypted document. Found: the JSON text of the value
/// there and one more hit than `bits`; missing: `"none"` and the count starts again from zero.
fn extract_json_parts(json: &serde_json::Value, item: &str, bits: usize) -> (res: Result<
    (String, usize),
    ProtocolError,
>)
    requires
        bits < usize::MAX,
    ensures
        res matches Ok((text, hits)) && hits == if json_pointers(*json).dom().contains(item@) {
            bits + 1
        } else {
            0
        },
        json_pointers(*json).dom().contains(item@) ==> (res matches Ok((text, _)) && text@
            == json_pointers(*json)[item@]),
        !json_pointers(*json).dom().contains(item@) ==> (res matches Ok((text, _)) && text@
            == "none"@),
{
    match json_pointer(json, item) {
        Some(a) => Ok((json_to_string(a), bits + 1)),
        None => Ok((String::from_str("none"), 0)),
    }
}

/// Holds what the server knows of one client connection: the protocol tokens,
/// the peer's address, and the bytes queued for the client.
#[derive(Debug)]
pub struct ValidationHelper {
    pub client_header: String,
    pub start_of_pgp_msg: String,
    pub end_of_pgp_msg: String,
    pub peer_address: String,
    /// Bytes written to the client, in order, not yet flushed to the connection.
    pub outbox: Vec<u8>,
    /// Lines to log, in order, not yet written to the log.
    pub log: Vec<String>,
}

/// The line logged when decrypted client data from `peer` is not JSON: the
/// peer's address, ` Error: json transform '`, the parser's message and `'`.
pub open spec fn json_error_line(peer: Seq<char>, msg: Seq<u8>) -> Seq<char> {
    peer + " Error: json transform '"@ + spec_json_error_text(msg) + seq!['\'']
}

/// Two helpers serve the same connection with the same protocol tokens.
pub open spec fn same_connection(a: ValidationHelper, b: ValidationHelper) -> bool {
    &&& a.client_header == b.client_header
    &&& a.start_of_pgp_msg == b.start_of_pgp_msg
    &&& a.end_of_pgp_msg == b.end_of_pgp_msg
    &&& a.peer_address == b.peer_address
}

/// The pointer map of decrypted data (empty when it is not JSON).
pub open spec fn decrypted_pointers(msg: Seq<u8>) -> Map<Seq<char>, Seq<char>> {
    match spec_json_parse(msg) {
        Some((pointers, _text)) => pointers,
        None => Map::empty(),
    }
}

impl ValidationHelper {
    /// A helper for the connection from `peer_addr`, with the given header and PGP tokens
    /// and nothing queued for the client.
    pub fn new(peer_addr: &str, chdr: &str, spgp: &str, epgp: &str) -> (res: Result<
        ValidationHelper,
        ProtocolError,
    >)
        ensures
            res matches Ok(h) && h.client_header@ == chdr@ && h.start_of_pgp_msg@ == spgp@
                && h.end_of_pgp_msg@ == epgp@ && h.peer_address@ == peer_addr@ && h.outbox@.len()
                == 0 && h.log@.len() == 0,
    {
        Ok(
            ValidationHelper {
                client_header: String::from_str(chdr),
                start_of_pgp_msg: String::from_str(spgp),
                end_of_pgp_msg: String::from_str(epgp),
                peer_address: String::from_str(peer_addr),
                outbox: Vec::new(),
                log: Vec::new(),
            },
        )
    }

    /// How the helper shows itself: its client header in parentheses.
    pub fn describe(&self) -> (res: String)
        ensures
            res@ == "("@ + self.client_header@ + ")"@,
    {
        let mut res = String::from_str("(");
        res.append(self.client_header.as_str());
        res.append(")");
        res
    }
}

/// The checks and replies of the client protocol.
pub trait ValidationHelperRoutines {
    /// Exit hook; does nothing.
    fn exit(&mut self, msg: &String);

    /// Whether the client header is the expected one.
    fn validate_client_header(&mut self, msg: &String) -> bool;

    /// Whether the client data is PGP-armoured.
    fn validate_stream_data(&mut self, msg: &String) -> bool;

    /// Whether the decrypted client data is acceptable; replies to the client.
    fn validate_decrypted_data(&mut self, msg: Vec<u8>) -> bool;

    /// Queues the refusal for the client.
    fn send_client_fail(&mut self);

    /// Queues `data` for the client.
    fn send_client_ok(&mut self, data: &[u8]) -> bool;

    /// Reads the header and the data out of the bytes a client sent. A message
    /// without `;` is reported as `MissingSeparator` rather than a panic; the
    /// server treats that error as fatal, and `split_client_msg` is the form that
    /// leaves such text out by its `requires`.
    fn parse_client_msg(&mut self, received: &[u8]) -> Result<(String, String), ProtocolError>;
}

impl ValidationHelperRoutines for ValidationHelper {
    fn exit(&mut self, _msg: &String)
        ensures
            *final(self) == *old(self),
    {
    }

    fn validate_stream_data(&mut self, data: &String) -> (ok: bool)
        ensures
            *final(self) == *old(self),
            ok == (seq_contains_sub(data@, old(self).start_of_pgp_msg@) && seq_contains_sub(
                data@,
                old(self).end_of_pgp_msg@,
            )),
    {
        if (!str_contains(data.as_str(), self.start_of_pgp_msg.as_str()) || !str_contains(
            data.as_str(),
            self.end_of_pgp_msg.as_str(),
        )) == true {
            return false;
        }
        return true;
    }

    fn validate_client_header(&mut self, data: &String) -> (ok: bool)
        ensures
            *final(self) == *old(self),
            ok == seq_contains_sub(data@, old(self).client_header@),
    {
        if !str_contains(data.as_str(), self.client_header.as_str()) {
            return false;
        }
        return true;
    }

    fn send_client_fail(&mut self)
        ensures
            final(self).outbox@ == old(self).outbox@ + CLIENT_FAIL_REPLY.spec_bytes(),
            same_connection(*final(self), *old(self)),
            final(self).log == old(self).log,
    {
        self.outbox.extend_from_slice(CLIENT_FAIL_REPLY.as_bytes());
    }

    fn send_client_ok(&mut self, data: &[u8]) -> (sent: bool)
        ensures
            sent,
            final(self).outbox@ == old(self).outbox@ + data@,
            same_connection(*final(self), *old(self)),
            final(self).log == old(self).log,
    {
        self.outbox.extend_from_slice(data);
        true
    }

    fn parse_client_msg(&mut self, received: &[u8]) -> (res: Result<(String, String), ProtocolError>)
        ensures
            *final(self) == *old(self),
            spec_utf8_lossy(received@).contains(';') ==> (res matches Ok((header, data)) && header@
                == spec_msg_header(spec_utf8_lossy(received@)) && data@ == spec_msg_data(
                spec_utf8_lossy(received@),
            )),
            !spec_utf8_lossy(received@).contains(';') ==> res == Err::<(String, String), ProtocolError>(
                ProtocolError::MissingSeparator,
            ),
            vstd::utf8::valid_utf8(received@) && vstd::utf8::decode_utf8(received@).contains(';')
                ==> (res matches Ok((header, data)) && header@ == spec_msg_header(
                vstd::utf8::decode_utf8(received@),
            ) && data@ == spec_msg_data(vstd::utf8::decode_utf8(received@))),
            vstd::utf8::valid_utf8(received@) && !vstd::utf8::decode_utf8(received@).contains(';')
                ==> res == Err::<(String, String), ProtocolError>(ProtocolError::MissingSeparator),
    {
        let text = utf8_lossy(received);
        let cs = chars_of(text.as_str());
        let sep: usize = find_char(&cs, 0, ';');
        proof {
            lemma_first_index(cs@, ';');
            assert(cs@.skip(0) =~= cs@);
        }
        if sep == cs.len() {
            return Err(ProtocolError::MissingSeparator);
        }
        Ok(split_chars(&cs))
    }

    fn validate_decrypted_data(&mut self, msg: Vec<u8>) -> (ok: bool)
        ensures
            ok == spec_decrypted_data_valid(msg@),
            final(self).outbox@ == old(self).outbox@ + spec_decrypted_data_reply(msg@),
            same_connection(*final(self), *old(self)),
            spec_json_parse(msg@) is Some ==> final(self).log == old(self).log,
            spec_json_parse(msg@) is None ==> final(self).log@.len() == old(self).log@.len() + 1
                && final(self).log@.drop_last() == old(self).log@ && final(self).log@.last()@
                == json_error_line(old(self).peer_address@, msg@),
    {
        let x = match json_from_slice(msg.as_slice()) {
            Ok(val) => val,
            Err(e) => {
                let mut line = String::from_str(self.peer_address.as_str());
                line.append(" Error: json transform '");
                line.append(e.as_str());
                push_char(&mut line, '\'');
                self.log.push(line);
                assert(old(self).outbox@ + seq![] =~= old(self).outbox@);
                return false;
            },
        };
        if json_is_null(&x) {
            proof {
                reveal_strlit("/org");
                assert(JS_ORG@.len() > 0);
            }
            assert(old(self).outbox@ + seq![] =~= old(self).outbox@);
            return false;
        }
        let bits: usize = 0;
        let (_org, bits) = match extract_json_parts(&x, JS_ORG, bits) {
            Ok(found) => found,
            Err(_) => return false,
        };
        let (_org_key, bits) = match extract_json_parts(&x, JS_ORG_KEY, bits) {
            Ok(found) => found,
            Err(_) => return false,
        };
        let (_client_key, bits) = match extract_json_parts(&x, JS_CLIENT_KEY, bits) {
            Ok(found) => found,
            Err(_) => return false,
        };
        if bits == 3 {
            let text = json_to_string(&x);
            let _x = self.send_client_ok(text.as_str().as_bytes());
            return true;
        }
        let _x = self.send_client_fail();
        false
    }
}

impl ValidationHelper {
    /// First step of serving a request: the header must be the client header
    /// and the data must carry both PGP markers; otherwise the request is
    /// refused and the refusal is queued.
    pub fn check_request(&mut self, header: &String, data: &String) -> (proceed: bool)
        ensures
            proceed == (seq_contains_sub(header@, old(self).client_header@) && seq_contains_sub(
                data@,
                old(self).start_of_pgp_msg@,
            ) && seq_contains_sub(data@, old(self).end_of_pgp_msg@)),
            proceed ==> *final(self) == *old(self),
            !proceed ==> final(self).outbox@ == old(self).outbox@ + CLIENT_FAIL_REPLY.spec_bytes(),
            same_connection(*final(self), *old(self)),
            final(self).log == old(self).log,
    {
        if !self.validate_client_header(header) || !self.validate_stream_data(data) {
            self.send_client_fail();
            return false;
        }
        true
    }

    /// Last step of serving a request: answers from the outcome of decrypting
    /// its data. A failed decryption is refused; decrypted data is judged by
    /// `validate_decrypted_data`.
    pub fn answer_decrypted(&mut self, decrypted: Option<Vec<u8>>) -> (accepted: bool)
        ensures
            same_connection(*final(self), *old(self)),
            match decrypted {
                None => {
                    &&& !accepted
                    &&& final(self).outbox@ == old(self).outbox@ + CLIENT_FAIL_REPLY.spec_bytes()
                    &&& final(self).log == old(self).log
                },
                Some(msg) => {
                    &&& accepted == spec_decrypted_data_valid(msg@)
                    &&& final(self).outbox@ == old(self).outbox@ + spec_decrypted_data_reply(msg@)
                    &&& spec_json_parse(msg@) is Some ==> final(self).log == old(self).log
                    &&& spec_json_parse(msg@) is None ==> final(self).log@.len() == old(
                        self,
                    ).log@.len() + 1 && final(self).log@.drop_last() == old(self).log@
                        && final(self).log@.last()@ == json_error_line(old(self).peer_address@, msg@)
                },
            },
    {
        match decrypted {
            None => {
                self.send_client_fail();
                false
            },
            Some(msg) => self.validate_decrypted_data(msg),
        }
    }
}

/// Law: only the presence of the three keys decides on a decrypted document,
/// not their values nor anything else it holds: two documents that both parse
/// and agree on which of the three keys are present are both accepted or both
/// refused.
pub proof fn law_only_key_presence_counts(m1: Seq<u8>, m2: Seq<u8>)
    requires
        spec_json_parse(m1) is Some,
        spec_json_parse(m2) is Some,
        decrypted_pointers(m1).dom().contains(JS_ORG@) == decrypted_pointers(m2).dom().contains(
            JS_ORG@,
        ),
        decrypted_pointers(m1).dom().contains(JS_ORG_KEY@) == decrypted_pointers(
            m2,
        ).dom().contains(JS_ORG_KEY@),
        decrypted_pointers(m1).dom().contains(JS_CLIENT_KEY@) == decrypted_pointers(
            m2,
        ).dom().contains(JS_CLIENT_KEY@),
    ensures
        spec_decrypted_data_valid(m1) == spec_decrypted_data_valid(m2),
{
}

/// Law: a client message with a separator splits into a header with no `;`, and
/// data with no `;` and no trailing `\r\n\r\n`; the header is what precedes the
/// first `;`.
pub proof fn law_message_fields_are_clean(s: Seq<char>)
    requires
        s.contains(';'),
    ensures
        !spec_msg_header(s).contains(';'),
        !spec_msg_data(s).contains(';'),
        !(4 <= spec_msg_data(s).len() && spec_msg_data(s).subrange(
            spec_msg_data(s).len() - 4,
            spec_msg_data(s).len() as int,
        ) == crlf_crlf()),
        s == spec_msg_header(s) + seq![';'] + s.skip(spec_msg_header(s).len() + 1int),
{
    lemma_first_index(s, ';');
    let i: int = first_index(s, ';');
    let rest = s.skip(i + 1);
    lemma_first_index(rest, ';');
    let field = rest.take(first_index(rest, ';'));
    lemma_trim_end_all(field, crlf_crlf());
    let data = spec_msg_data(s);
    if spec_msg_header(s).contains(';') {
        let k: int = choose|k: int| 0 <= k < spec_msg_header(s).len() && spec_msg_header(s)[k] == ';';
        assert(s[k] == ';');
    }
    if data.contains(';') {
        let k: int = choose|k: int| 0 <= k < data.len() && data[k] == ';';
        assert(data[k] == field[k]);
        assert(rest[k] == ';');
    }
    assert(s =~= spec_msg_header(s) + seq![';'] + s.skip(spec_msg_header(s).len() + 1int));
}

/// Law: a request built as `header;data\r\n\r\n`, where neither part holds a
/// `;` and the data does not itself end in `\r\n\r\n`, is read back as exactly
/// that header and that data.
pub proof fn law_request_round_trip(header: Seq<char>, data: Seq<char>)
    requires
        !header.contains(';'),
        !data.contains(';'),
        !(4 <= data.len() && data.subrange(data.len() - 4, data.len() as int) == crlf_crlf()),
    ensures
        spec_msg_header(header + seq![';'] + data + crlf_crlf()) == header,
        spec_msg_data(header + seq![';'] + data + crlf_crlf()) == data,
{
    let s = header + seq![';'] + data + crlf_crlf();
    assert forall|j: int| 0 <= j < header.len() implies s[j] != ';' by {
        assert(s[j] == header[j]);
        assert(header.contains(header[j]));
    }
    assert(s[header.len() as int] == ';');
    lemma_first_index_unique(s, ';', header.len() as int);
    assert(s.take(header.len() as int) =~= header);
    let rest = s.skip(header.len() + 1int);
    assert(rest =~= data + crlf_crlf());
    assert forall|j: int| 0 <= j < rest.len() implies rest[j] != ';' by {
        if j < data.len() {
            assert(rest[j] == data[j]);
            assert(data.contains(data[j]));
        } else {
            assert(rest[j] == crlf_crlf()[j - data.len()]);
        }
    }
    lemma_first_index_unique(rest, ';', rest.len() as int);
    assert(rest.take(rest.len() as int) =~= rest);
    assert(rest.subrange(rest.len() - 4, rest.len() as int) =~= crlf_crlf());
    assert(rest.take(rest.len() - 4) =~= data);
    assert(trim_end_all(data, crlf_crlf()) == data);
}

/// Law: an accepted decrypted document is answered with its own JSON text; a
/// document that parses, is not `null` and is refused is answered with the
/// refusal; anything else gets no reply.
pub proof fn law_decrypted_data_reply(msg: Seq<u8>)
    ensures
        match spec_json_parse(msg) {
            None => spec_decrypted_data_reply(msg).len() == 0,
            Some((_pointers, text)) => {
                &&& spec_decrypted_data_valid(msg) ==> spec_decrypted_data_reply(msg)
                    == vstd::utf8::encode_utf8(text)
                &&& !spec_decrypted_data_valid(msg) && text != seq!['n', 'u', 'l', 'l']
                    ==> spec_decrypted_data_reply(msg) == CLIENT_FAIL_REPLY.spec_bytes()
                &&& !spec_decrypted_data_valid(msg) && text == seq!['n', 'u', 'l', 'l']
                    ==> spec_decrypted_data_reply(msg).len() == 0
            },
        },
{
}

/// Law: a decrypted document is accepted exactly when it parses as JSON and the
/// pointers `/org`, `/license/org_key` and `/license/client_key` all resolve in
/// it. In particular a parsed document in which any one of them does not
/// resolve is refused, and, unless it is `null`, answered with the refusal.
pub proof fn law_accepted_iff_three_keys(msg: Seq<u8>)
    ensures
        spec_decrypted_data_valid(msg) <==> (spec_json_parse(msg) is Some && decrypted_pointers(
            msg,
        ).dom().contains("/org"@) && decrypted_pointers(msg).dom().contains("/license/org_key"@)
            && decrypted_pointers(msg).dom().contains("/license/client_key"@)),
        match spec_json_parse(msg) {
            None => true,
            Some((pointers, text)) => (!pointers.dom().contains("/org"@) || !pointers.dom().contains(
                "/license/org_key"@,
            ) || !pointers.dom().contains("/license/client_key"@)) && text != seq![
                'n',
                'u',
                'l',
                'l',
            ] ==> spec_decrypted_data_reply(msg) == "unknown request\r\n\r\n".spec_bytes(),
        },
        spec_decrypted_data_valid(msg) ==> spec_decrypted_data_reply(msg)
            == vstd::utf8::encode_utf8(spec_json_parse(msg).unwrap().1),
{
}

} // verus!
