use vstd::prelude::*;
use vstd::string::*;

use crate::args::ArgMap;
use crate::port::{
    CommandDef, CommandModel, ParamDef, ParamModel, PortError, cmd_model, cmd_models_of,
    find_cmd_spec, invalid_arg_error, invalid_arg_message, missing_arg_error, missing_arg_message,
    unknown_command_error, unknown_command_message,
};
use crate::codec::{chars_to_string, dec_digits};
use crate::text::{parse_u64, parse_u64_spec, str_eq, u64_to_string};
use crate::value::{Entry, PortValue, ValueModel};

verus! {

// ===================================================================
// The mail port: full email over a JMAP server. The schema, argument
// handling, defaults, and every piece of pure mail logic — reply
// headers, mailbox matching, address and summary rendering, filename
// hygiene — are here; the server conversation is the application's.
// ===================================================================

/// The mail schema.
pub open spec fn spec_schema() -> Seq<CommandModel> {
    seq![
        CommandModel { name: "connect"@, params: seq![ParamModel { name: "url"@, required: false }, ParamModel { name: "user"@, required: false }, ParamModel { name: "pass"@, required: false }] },
        CommandModel { name: "status"@, params: Seq::empty() },
        CommandModel { name: "mailboxes"@, params: Seq::empty() },
        CommandModel { name: "query"@, params: seq![ParamModel { name: "mailbox"@, required: false }, ParamModel { name: "limit"@, required: false }] },
        CommandModel { name: "read"@, params: seq![ParamModel { name: "id"@, required: true }] },
        CommandModel { name: "mark_read"@, params: seq![ParamModel { name: "id"@, required: true }] },
        CommandModel { name: "identities"@, params: Seq::empty() },
        CommandModel { name: "send"@, params: seq![ParamModel { name: "to"@, required: true }, ParamModel { name: "subject"@, required: true }, ParamModel { name: "body"@, required: true }, ParamModel { name: "from"@, required: false }] },
        CommandModel { name: "reply"@, params: seq![ParamModel { name: "id"@, required: true }, ParamModel { name: "body"@, required: true }] },
        CommandModel { name: "move"@, params: seq![ParamModel { name: "id"@, required: true }, ParamModel { name: "mailbox"@, required: true }] },
        CommandModel { name: "delete"@, params: seq![ParamModel { name: "id"@, required: true }, ParamModel { name: "permanent"@, required: false }] },
        CommandModel { name: "flag"@, params: seq![ParamModel { name: "id"@, required: true }] },
        CommandModel { name: "unflag"@, params: seq![ParamModel { name: "id"@, required: true }] },
        CommandModel { name: "mark_unread"@, params: seq![ParamModel { name: "id"@, required: true }] },
        CommandModel { name: "search"@, params: seq![ParamModel { name: "text"@, required: true }, ParamModel { name: "limit"@, required: false }] },
        CommandModel { name: "attachment_list"@, params: seq![ParamModel { name: "id"@, required: true }] },
        CommandModel { name: "attachment_download"@, params: seq![ParamModel { name: "id"@, required: true }, ParamModel { name: "name"@, required: false }] },
    ]
}

/// The full schema, as command definitions.
#[verifier::rlimit(100)]
pub fn commands() -> (r: Vec<CommandDef>)
    ensures
        cmd_models_of(r@) == spec_schema(),
        r@.len() > 0,
{
    let mut r: Vec<CommandDef> = Vec::new();
    let mut connect_params: Vec<ParamDef> = Vec::new();
    connect_params.push(
        ParamDef {
            name: String::from_str("url"),
            description: String::from_str("JMAP server URL (falls back to JMAP_URL env)"),
            required: false,
        },
    );
    connect_params.push(
        ParamDef {
            name: String::from_str("user"),
            description: String::from_str("Email/username (falls back to JMAP_USER env)"),
            required: false,
        },
    );
    connect_params.push(
        ParamDef {
            name: String::from_str("pass"),
            description: String::from_str("Password (falls back to JMAP_PASS env)"),
            required: false,
        },
    );
    r.push(
        CommandDef {
            name: String::from_str("connect"),
            description: String::from_str("Connect to JMAP mail server"),
            params: connect_params,
        },
    );
    let status_params: Vec<ParamDef> = Vec::new();
    r.push(
        CommandDef {
            name: String::from_str("status"),
            description: String::from_str("Check mail connection status"),
            params: status_params,
        },
    );
    let mailboxes_params: Vec<ParamDef> = Vec::new();
    r.push(
        CommandDef {
            name: String::from_str("mailboxes"),
            description: String::from_str("List all mailboxes with counts"),
            params: mailboxes_params,
        },
    );
    let mut query_params: Vec<ParamDef> = Vec::new();
    query_params.push(
        ParamDef {
            name: String::from_str("mailbox"),
            description: String::from_str("Mailbox name or ID (default: Inbox)"),
            required: false,
        },
    );
    query_params.push(
        ParamDef {
            name: String::from_str("limit"),
            description: String::from_str("Max results (default: 20)"),
            required: false,
        },
    );
    r.push(
        CommandDef {
            name: String::from_str("query"),
            description: String::from_str("Query emails in a mailbox"),
            params: query_params,
        },
    );
    let mut read_params: Vec<ParamDef> = Vec::new();
    read_params.push(
        ParamDef {
            name: String::from_str("id"),
            description: String::from_str("Email ID"),
            required: true,
        },
    );
    r.push(
        CommandDef {
            name: String::from_str("read"),
            description: String::from_str("Read a full email by ID"),
            params: read_params,
        },
    );
    let mut mark_read_params: Vec<ParamDef> = Vec::new();
    mark_read_params.push(
        ParamDef {
            name: String::from_str("id"),
            description: String::from_str("Email ID"),
            required: true,
        },
    );
    r.push(
        CommandDef {
            name: String::from_str("mark_read"),
            description: String::from_str("Mark an email as read"),
            params: mark_read_params,
        },
    );
    let identities_params: Vec<ParamDef> = Vec::new();
    r.push(
        CommandDef {
            name: String::from_str("identities"),
            description: String::from_str("List sender identities"),
            params: identities_params,
        },
    );
    let mut send_params: Vec<ParamDef> = Vec::new();
    send_params.push(
        ParamDef {
            name: String::from_str("to"),
            description: String::from_str("Recipient email address"),
            required: true,
        },
    );
    send_params.push(
        ParamDef {
            name: String::from_str("subject"),
            description: String::from_str("Email subject"),
            required: true,
        },
    );
    send_params.push(
        ParamDef {
            name: String::from_str("body"),
            description: String::from_str("Email body text"),
            required: true,
        },
    );
    send_params.push(
        ParamDef {
            name: String::from_str("from"),
            description: String::from_str("From address (default: first identity)"),
            required: false,
        },
    );
    r.push(
        CommandDef {
            name: String::from_str("send"),
            description: String::from_str("Send an email"),
            params: send_params,
        },
    );
    let mut reply_params: Vec<ParamDef> = Vec::new();
    reply_params.push(
        ParamDef {
            name: String::from_str("id"),
            description: String::from_str("Email ID to reply to"),
            required: true,
        },
    );
    reply_params.push(
        ParamDef {
            name: String::from_str("body"),
            description: String::from_str("Reply body text"),
            required: true,
        },
    );
    r.push(
        CommandDef {
            name: String::from_str("reply"),
            description: String::from_str("Reply to an email"),
            params: reply_params,
        },
    );
    let mut move_params: Vec<ParamDef> = Vec::new();
    move_params.push(
        ParamDef {
            name: String::from_str("id"),
            description: String::from_str("Email ID"),
            required: true,
        },
    );
    move_params.push(
        ParamDef {
            name: String::from_str("mailbox"),
            description: String::from_str("Target mailbox name or ID"),
            required: true,
        },
    );
    r.push(
        CommandDef {
            name: String::from_str("move"),
            description: String::from_str("Move email to another mailbox"),
            params: move_params,
        },
    );
    let mut delete_params: Vec<ParamDef> = Vec::new();
    delete_params.push(
        ParamDef {
            name: String::from_str("id"),
            description: String::from_str("Email ID"),
            required: true,
        },
    );
    delete_params.push(
        ParamDef {
            name: String::from_str("permanent"),
            description: String::from_str("Permanently delete (default: false)"),
            required: false,
        },
    );
    r.push(
        CommandDef {
            name: String::from_str("delete"),
            description: String::from_str("Delete email (move to Trash, or permanent)"),
            params: delete_params,
        },
    );
    let mut flag_params: Vec<ParamDef> = Vec::new();
    flag_params.push(
        ParamDef {
            name: String::from_str("id"),
            description: String::from_str("Email ID"),
            required: true,
        },
    );
    r.push(
        CommandDef {
            name: String::from_str("flag"),
            description: String::from_str("Flag an email"),
            params: flag_params,
        },
    );
    let mut unflag_params: Vec<ParamDef> = Vec::new();
    unflag_params.push(
        ParamDef {
            name: String::from_str("id"),
            description: String::from_str("Email ID"),
            required: true,
        },
    );
    r.push(
        CommandDef {
            name: String::from_str("unflag"),
            description: String::from_str("Unflag an email"),
            params: unflag_params,
        },
    );
    let mut mark_unread_params: Vec<ParamDef> = Vec::new();
    mark_unread_params.push(
        ParamDef {
            name: String::from_str("id"),
            description: String::from_str("Email ID"),
            required: true,
        },
    );
    r.push(
        CommandDef {
            name: String::from_str("mark_unread"),
            description: String::from_str("Mark an email as unread"),
            params: mark_unread_params,
        },
    );
    let mut search_params: Vec<ParamDef> = Vec::new();
    search_params.push(
        ParamDef {
            name: String::from_str("text"),
            description: String::from_str("Search text"),
            required: true,
        },
    );
    search_params.push(
        ParamDef {
            name: String::from_str("limit"),
            description: String::from_str("Max results (default: 20)"),
            required: false,
        },
    );
    r.push(
        CommandDef {
            name: String::from_str("search"),
            description: String::from_str("Full-text search across all mailboxes"),
            params: search_params,
        },
    );
    let mut attachment_list_params: Vec<ParamDef> = Vec::new();
    attachment_list_params.push(
        ParamDef {
            name: String::from_str("id"),
            description: String::from_str("Email ID"),
            required: true,
        },
    );
    r.push(
        CommandDef {
            name: String::from_str("attachment_list"),
            description: String::from_str("List attachments on an email"),
            params: attachment_list_params,
        },
    );
    let mut attachment_download_params: Vec<ParamDef> = Vec::new();
    attachment_download_params.push(
        ParamDef {
            name: String::from_str("id"),
            description: String::from_str("Blob ID"),
            required: true,
        },
    );
    attachment_download_params.push(
        ParamDef {
            name: String::from_str("name"),
            description: String::from_str("Filename to save as"),
            required: false,
        },
    );
    r.push(
        CommandDef {
            name: String::from_str("attachment_download"),
            description: String::from_str("Download attachment by blob ID"),
            params: attachment_download_params,
        },
    );
    proof {
        assert(cmd_model(r@[0]).params =~= spec_schema()[0].params);
        assert(cmd_model(r@[0]) =~~= spec_schema()[0]);
        assert(cmd_model(r@[1]).params =~= spec_schema()[1].params);
        assert(cmd_model(r@[1]) =~~= spec_schema()[1]);
        assert(cmd_model(r@[2]).params =~= spec_schema()[2].params);
        assert(cmd_model(r@[2]) =~~= spec_schema()[2]);
        assert(cmd_model(r@[3]).params =~= spec_schema()[3].params);
        assert(cmd_model(r@[3]) =~~= spec_schema()[3]);
        assert(cmd_model(r@[4]).params =~= spec_schema()[4].params);
        assert(cmd_model(r@[4]) =~~= spec_schema()[4]);
        assert(cmd_model(r@[5]).params =~= spec_schema()[5].params);
        assert(cmd_model(r@[5]) =~~= spec_schema()[5]);
        assert(cmd_model(r@[6]).params =~= spec_schema()[6].params);
        assert(cmd_model(r@[6]) =~~= spec_schema()[6]);
        assert(cmd_model(r@[7]).params =~= spec_schema()[7].params);
        assert(cmd_model(r@[7]) =~~= spec_schema()[7]);
        assert(cmd_model(r@[8]).params =~= spec_schema()[8].params);
        assert(cmd_model(r@[8]) =~~= spec_schema()[8]);
        assert(cmd_model(r@[9]).params =~= spec_schema()[9].params);
        assert(cmd_model(r@[9]) =~~= spec_schema()[9]);
        assert(cmd_model(r@[10]).params =~= spec_schema()[10].params);
        assert(cmd_model(r@[10]) =~~= spec_schema()[10]);
        assert(cmd_model(r@[11]).params =~= spec_schema()[11].params);
        assert(cmd_model(r@[11]) =~~= spec_schema()[11]);
        assert(cmd_model(r@[12]).params =~= spec_schema()[12].params);
        assert(cmd_model(r@[12]) =~~= spec_schema()[12]);
        assert(cmd_model(r@[13]).params =~= spec_schema()[13].params);
        assert(cmd_model(r@[13]) =~~= spec_schema()[13]);
        assert(cmd_model(r@[14]).params =~= spec_schema()[14].params);
        assert(cmd_model(r@[14]) =~~= spec_schema()[14]);
        assert(cmd_model(r@[15]).params =~= spec_schema()[15].params);
        assert(cmd_model(r@[15]) =~~= spec_schema()[15]);
        assert(cmd_model(r@[16]).params =~= spec_schema()[16].params);
        assert(cmd_model(r@[16]) =~~= spec_schema()[16]);
        assert(cmd_models_of(r@) =~~= spec_schema());
    }
    r
}

/// All command names of this schema are pairwise distinct.
#[verifier::rlimit(100)]
proof fn lemma_names_distinct()
    ensures
        "connect"@ != "status"@,
        "connect"@ != "mailboxes"@,
        "connect"@ != "query"@,
        "connect"@ != "read"@,
        "connect"@ != "mark_read"@,
        "connect"@ != "identities"@,
        "connect"@ != "send"@,
        "connect"@ != "reply"@,
        "connect"@ != "move"@,
        "connect"@ != "delete"@,
        "connect"@ != "flag"@,
        "connect"@ != "unflag"@,
        "connect"@ != "mark_unread"@,
        "connect"@ != "search"@,
        "connect"@ != "attachment_list"@,
        "connect"@ != "attachment_download"@,
        "status"@ != "mailboxes"@,
        "status"@ != "query"@,
        "status"@ != "read"@,
        "status"@ != "mark_read"@,
        "status"@ != "identities"@,
        "status"@ != "send"@,
        "status"@ != "reply"@,
        "status"@ != "move"@,
        "status"@ != "delete"@,
        "status"@ != "flag"@,
        "status"@ != "unflag"@,
        "status"@ != "mark_unread"@,
        "status"@ != "search"@,
        "status"@ != "attachment_list"@,
        "status"@ != "attachment_download"@,
        "mailboxes"@ != "query"@,
        "mailboxes"@ != "read"@,
        "mailboxes"@ != "mark_read"@,
        "mailboxes"@ != "identities"@,
        "mailboxes"@ != "send"@,
        "mailboxes"@ != "reply"@,
        "mailboxes"@ != "move"@,
        "mailboxes"@ != "delete"@,
        "mailboxes"@ != "flag"@,
        "mailboxes"@ != "unflag"@,
        "mailboxes"@ != "mark_unread"@,
        "mailboxes"@ != "search"@,
        "mailboxes"@ != "attachment_list"@,
        "mailboxes"@ != "attachment_download"@,
        "query"@ != "read"@,
        "query"@ != "mark_read"@,
        "query"@ != "identities"@,
        "query"@ != "send"@,
        "query"@ != "reply"@,
        "query"@ != "move"@,
        "query"@ != "delete"@,
        "query"@ != "flag"@,
        "query"@ != "unflag"@,
        "query"@ != "mark_unread"@,
        "query"@ != "search"@,
        "query"@ != "attachment_list"@,
        "query"@ != "attachment_download"@,
        "read"@ != "mark_read"@,
        "read"@ != "identities"@,
        "read"@ != "send"@,
        "read"@ != "reply"@,
        "read"@ != "move"@,
        "read"@ != "delete"@,
        "read"@ != "flag"@,
        "read"@ != "unflag"@,
        "read"@ != "mark_unread"@,
        "read"@ != "search"@,
        "read"@ != "attachment_list"@,
        "read"@ != "attachment_download"@,
        "mark_read"@ != "identities"@,
        "mark_read"@ != "send"@,
        "mark_read"@ != "reply"@,
        "mark_read"@ != "move"@,
        "mark_read"@ != "delete"@,
        "mark_read"@ != "flag"@,
        "mark_read"@ != "unflag"@,
        "mark_read"@ != "mark_unread"@,
        "mark_read"@ != "search"@,
        "mark_read"@ != "attachment_list"@,
        "mark_read"@ != "attachment_download"@,
        "identities"@ != "send"@,
        "identities"@ != "reply"@,
        "identities"@ != "move"@,
        "identities"@ != "delete"@,
        "identities"@ != "flag"@,
        "identities"@ != "unflag"@,
        "identities"@ != "mark_unread"@,
        "identities"@ != "search"@,
        "identities"@ != "attachment_list"@,
        "identities"@ != "attachment_download"@,
        "send"@ != "reply"@,
        "send"@ != "move"@,
        "send"@ != "delete"@,
        "send"@ != "flag"@,
        "send"@ != "unflag"@,
        "send"@ != "mark_unread"@,
        "send"@ != "search"@,
        "send"@ != "attachment_list"@,
        "send"@ != "attachment_download"@,
        "reply"@ != "move"@,
        "reply"@ != "delete"@,
        "reply"@ != "flag"@,
        "reply"@ != "unflag"@,
        "reply"@ != "mark_unread"@,
        "reply"@ != "search"@,
        "reply"@ != "attachment_list"@,
        "reply"@ != "attachment_download"@,
        "move"@ != "delete"@,
        "move"@ != "flag"@,
        "move"@ != "unflag"@,
        "move"@ != "mark_unread"@,
        "move"@ != "search"@,
        "move"@ != "attachment_list"@,
        "move"@ != "attachment_download"@,
        "delete"@ != "flag"@,
        "delete"@ != "unflag"@,
        "delete"@ != "mark_unread"@,
        "delete"@ != "search"@,
        "delete"@ != "attachment_list"@,
        "delete"@ != "attachment_download"@,
        "flag"@ != "unflag"@,
        "flag"@ != "mark_unread"@,
        "flag"@ != "search"@,
        "flag"@ != "attachment_list"@,
        "flag"@ != "attachment_download"@,
        "unflag"@ != "mark_unread"@,
        "unflag"@ != "search"@,
        "unflag"@ != "attachment_list"@,
        "unflag"@ != "attachment_download"@,
        "mark_unread"@ != "search"@,
        "mark_unread"@ != "attachment_list"@,
        "mark_unread"@ != "attachment_download"@,
        "search"@ != "attachment_list"@,
        "search"@ != "attachment_download"@,
        "attachment_list"@ != "attachment_download"@,
{
    reveal_strlit("connect");
    reveal_strlit("status");
    reveal_strlit("mailboxes");
    reveal_strlit("query");
    reveal_strlit("read");
    reveal_strlit("mark_read");
    reveal_strlit("identities");
    reveal_strlit("send");
    reveal_strlit("reply");
    reveal_strlit("move");
    reveal_strlit("delete");
    reveal_strlit("flag");
    reveal_strlit("unflag");
    reveal_strlit("mark_unread");
    reveal_strlit("search");
    reveal_strlit("attachment_list");
    reveal_strlit("attachment_download");
    assert("connect"@.len() == 7);
    assert("status"@.len() == 6);
    assert("mailboxes"@.len() == 9);
    assert("query"@.len() == 5);
    assert("read"@.len() == 4);
    assert("mark_read"@.len() == 9);
    assert("identities"@.len() == 10);
    assert("send"@.len() == 4);
    assert("reply"@.len() == 5);
    assert("move"@.len() == 4);
    assert("delete"@.len() == 6);
    assert("flag"@.len() == 4);
    assert("unflag"@.len() == 6);
    assert("mark_unread"@.len() == 11);
    assert("search"@.len() == 6);
    assert("attachment_list"@.len() == 15);
    assert("attachment_download"@.len() == 19);
    assert("status"@[0] == 's');
    assert("delete"@[0] == 'd');
    assert("unflag"@[0] == 'u');
    assert("status"@[1] == 't');
    assert("search"@[1] == 'e');
    assert("mailboxes"@[2] == 'i');
    assert("mark_read"@[2] == 'r');
    assert("query"@[0] == 'q');
    assert("reply"@[0] == 'r');
    assert("read"@[0] == 'r');
    assert("send"@[0] == 's');
    assert("move"@[0] == 'm');
    assert("flag"@[0] == 'f');
    assert("search"@[0] == 's');
}

/// How a command name resolves against this schema.
#[verifier::rlimit(100)]
proof fn lemma_schema_lookup(cmd: Seq<char>)
    ensures
        cmd == "connect"@ ==> find_cmd_spec(spec_schema(), cmd) == Some(spec_schema()[0]),
        cmd == "status"@ ==> find_cmd_spec(spec_schema(), cmd) == Some(spec_schema()[1]),
        cmd == "mailboxes"@ ==> find_cmd_spec(spec_schema(), cmd) == Some(spec_schema()[2]),
        cmd == "query"@ ==> find_cmd_spec(spec_schema(), cmd) == Some(spec_schema()[3]),
        cmd == "read"@ ==> find_cmd_spec(spec_schema(), cmd) == Some(spec_schema()[4]),
        cmd == "mark_read"@ ==> find_cmd_spec(spec_schema(), cmd) == Some(spec_schema()[5]),
        cmd == "identities"@ ==> find_cmd_spec(spec_schema(), cmd) == Some(spec_schema()[6]),
        cmd == "send"@ ==> find_cmd_spec(spec_schema(), cmd) == Some(spec_schema()[7]),
        cmd == "reply"@ ==> find_cmd_spec(spec_schema(), cmd) == Some(spec_schema()[8]),
        cmd == "move"@ ==> find_cmd_spec(spec_schema(), cmd) == Some(spec_schema()[9]),
        cmd == "delete"@ ==> find_cmd_spec(spec_schema(), cmd) == Some(spec_schema()[10]),
        cmd == "flag"@ ==> find_cmd_spec(spec_schema(), cmd) == Some(spec_schema()[11]),
        cmd == "unflag"@ ==> find_cmd_spec(spec_schema(), cmd) == Some(spec_schema()[12]),
        cmd == "mark_unread"@ ==> find_cmd_spec(spec_schema(), cmd) == Some(spec_schema()[13]),
        cmd == "search"@ ==> find_cmd_spec(spec_schema(), cmd) == Some(spec_schema()[14]),
        cmd == "attachment_list"@ ==> find_cmd_spec(spec_schema(), cmd) == Some(spec_schema()[15]),
        cmd == "attachment_download"@ ==> find_cmd_spec(spec_schema(), cmd) == Some(spec_schema()[16]),
        cmd != "connect"@ && cmd != "status"@ && cmd != "mailboxes"@ && cmd != "query"@ && cmd != "read"@ && cmd != "mark_read"@ && cmd != "identities"@ && cmd != "send"@ && cmd != "reply"@ && cmd != "move"@ && cmd != "delete"@ && cmd != "flag"@ && cmd != "unflag"@ && cmd != "mark_unread"@ && cmd != "search"@ && cmd != "attachment_list"@ && cmd != "attachment_download"@ ==> find_cmd_spec(spec_schema(), cmd) is None,
{
    reveal_strlit("connect");
    reveal_strlit("status");
    reveal_strlit("mailboxes");
    reveal_strlit("query");
    reveal_strlit("read");
    reveal_strlit("mark_read");
    reveal_strlit("identities");
    reveal_strlit("send");
    reveal_strlit("reply");
    reveal_strlit("move");
    reveal_strlit("delete");
    reveal_strlit("flag");
    reveal_strlit("unflag");
    reveal_strlit("mark_unread");
    reveal_strlit("search");
    reveal_strlit("attachment_list");
    reveal_strlit("attachment_download");
    lemma_names_distinct();
    let s = spec_schema();
    assert(s.skip(0) =~= s);
    assert(s.skip(0)[0] == s[0]);
    assert(s.skip(0).drop_first() =~= s.skip(1));
    assert(s.skip(1)[0] == s[1]);
    assert(s.skip(1).drop_first() =~= s.skip(2));
    assert(s.skip(2)[0] == s[2]);
    assert(s.skip(2).drop_first() =~= s.skip(3));
    assert(s.skip(3)[0] == s[3]);
    assert(s.skip(3).drop_first() =~= s.skip(4));
    assert(s.skip(4)[0] == s[4]);
    assert(s.skip(4).drop_first() =~= s.skip(5));
    assert(s.skip(5)[0] == s[5]);
    assert(s.skip(5).drop_first() =~= s.skip(6));
    assert(s.skip(6)[0] == s[6]);
    assert(s.skip(6).drop_first() =~= s.skip(7));
    assert(s.skip(7)[0] == s[7]);
    assert(s.skip(7).drop_first() =~= s.skip(8));
    assert(s.skip(8)[0] == s[8]);
    assert(s.skip(8).drop_first() =~= s.skip(9));
    assert(s.skip(9)[0] == s[9]);
    assert(s.skip(9).drop_first() =~= s.skip(10));
    assert(s.skip(10)[0] == s[10]);
    assert(s.skip(10).drop_first() =~= s.skip(11));
    assert(s.skip(11)[0] == s[11]);
    assert(s.skip(11).drop_first() =~= s.skip(12));
    assert(s.skip(12)[0] == s[12]);
    assert(s.skip(12).drop_first() =~= s.skip(13));
    assert(s.skip(13)[0] == s[13]);
    assert(s.skip(13).drop_first() =~= s.skip(14));
    assert(s.skip(14)[0] == s[14]);
    assert(s.skip(14).drop_first() =~= s.skip(15));
    assert(s.skip(15)[0] == s[15]);
    assert(s.skip(15).drop_first() =~= s.skip(16));
    assert(s.skip(16)[0] == s[16]);
    assert(s.skip(16).drop_first() =~= s.skip(17));
    assert(find_cmd_spec(s.skip(17), cmd) is None);
    assert(find_cmd_spec(s.skip(16), cmd) == (if cmd == s[16].name {
        Some(s[16])
    } else {
        find_cmd_spec(s.skip(17), cmd)
    }));
    assert(find_cmd_spec(s.skip(15), cmd) == (if cmd == s[15].name {
        Some(s[15])
    } else {
        find_cmd_spec(s.skip(16), cmd)
    }));
    assert(find_cmd_spec(s.skip(14), cmd) == (if cmd == s[14].name {
        Some(s[14])
    } else {
        find_cmd_spec(s.skip(15), cmd)
    }));
    assert(find_cmd_spec(s.skip(13), cmd) == (if cmd == s[13].name {
        Some(s[13])
    } else {
        find_cmd_spec(s.skip(14), cmd)
    }));
    assert(find_cmd_spec(s.skip(12), cmd) == (if cmd == s[12].name {
        Some(s[12])
    } else {
        find_cmd_spec(s.skip(13), cmd)
    }));
    assert(find_cmd_spec(s.skip(11), cmd) == (if cmd == s[11].name {
        Some(s[11])
    } else {
        find_cmd_spec(s.skip(12), cmd)
    }));
    assert(find_cmd_spec(s.skip(10), cmd) == (if cmd == s[10].name {
        Some(s[10])
    } else {
        find_cmd_spec(s.skip(11), cmd)
    }));
    assert(find_cmd_spec(s.skip(9), cmd) == (if cmd == s[9].name {
        Some(s[9])
    } else {
        find_cmd_spec(s.skip(10), cmd)
    }));
    assert(find_cmd_spec(s.skip(8), cmd) == (if cmd == s[8].name {
        Some(s[8])
    } else {
        find_cmd_spec(s.skip(9), cmd)
    }));
    assert(find_cmd_spec(s.skip(7), cmd) == (if cmd == s[7].name {
        Some(s[7])
    } else {
        find_cmd_spec(s.skip(8), cmd)
    }));
    assert(find_cmd_spec(s.skip(6), cmd) == (if cmd == s[6].name {
        Some(s[6])
    } else {
        find_cmd_spec(s.skip(7), cmd)
    }));
    assert(find_cmd_spec(s.skip(5), cmd) == (if cmd == s[5].name {
        Some(s[5])
    } else {
        find_cmd_spec(s.skip(6), cmd)
    }));
    assert(find_cmd_spec(s.skip(4), cmd) == (if cmd == s[4].name {
        Some(s[4])
    } else {
        find_cmd_spec(s.skip(5), cmd)
    }));
    assert(find_cmd_spec(s.skip(3), cmd) == (if cmd == s[3].name {
        Some(s[3])
    } else {
        find_cmd_spec(s.skip(4), cmd)
    }));
    assert(find_cmd_spec(s.skip(2), cmd) == (if cmd == s[2].name {
        Some(s[2])
    } else {
        find_cmd_spec(s.skip(3), cmd)
    }));
    assert(find_cmd_spec(s.skip(1), cmd) == (if cmd == s[1].name {
        Some(s[1])
    } else {
        find_cmd_spec(s.skip(2), cmd)
    }));
    assert(find_cmd_spec(s.skip(0), cmd) == (if cmd == s[0].name {
        Some(s[0])
    } else {
        find_cmd_spec(s.skip(1), cmd)
    }));
}

/// Connection defaults handed in from the outer edge (there the
/// environment is read once); the core itself never reads ambient
/// process state.
pub struct MailConfig {
    pub url: Option<String>,
    pub user: Option<String>,
    pub pass: Option<String>,
}

/// An argument, or its configured fallback, or nothing.
pub open spec fn spec_resolved(
    args: Map<Seq<char>, Seq<char>>,
    key: Seq<char>,
    fallback: Option<String>,
) -> Option<Seq<char>> {
    if args.contains_key(key) {
        Some(args[key])
    } else {
        match fallback {
            Some(s) => Some(s@),
            None => None,
        }
    }
}

/// The mailbox a query targets: the `mailbox` argument, or the inbox.
pub open spec fn spec_mailbox_arg(args: Map<Seq<char>, Seq<char>>) -> Seq<char> {
    if args.contains_key("mailbox"@) {
        args["mailbox"@]
    } else {
        "Inbox"@
    }
}

/// Whether a `limit` argument is present but malformed: such a call is
/// rejected with an error naming the parameter.
pub open spec fn limit_bad(args: Map<Seq<char>, Seq<char>>) -> bool {
    args.contains_key("limit"@) && parse_u64_spec(args["limit"@]) is None
}

/// The result cap a well-formed call asks for: the parsed `limit`
/// argument, twenty where none is given.
pub open spec fn spec_limit(args: Map<Seq<char>, Seq<char>>) -> u64 {
    if args.contains_key("limit"@) {
        match parse_u64_spec(args["limit"@]) {
            Some(v) => v,
            None => 20u64,
        }
    } else {
        20u64
    }
}

/// Whether a `permanent` argument is present but malformed: the flag
/// reads `true`/`1` or `false`/`0`; anything else is rejected with an
/// error naming the parameter.
pub open spec fn permanent_bad(args: Map<Seq<char>, Seq<char>>) -> bool {
    args.contains_key("permanent"@) && args["permanent"@] != "true"@ && args["permanent"@]
        != "1"@ && args["permanent"@] != "false"@ && args["permanent"@] != "0"@
}

/// Whether a well-formed delete is permanent: the literal arguments
/// `true` and `1` say so.
pub open spec fn spec_permanent(args: Map<Seq<char>, Seq<char>>) -> bool {
    args.contains_key("permanent"@) && (args["permanent"@] == "true"@ || args["permanent"@]
        == "1"@)
}

/// The filename a download saves under: the `name` argument, or a
/// plain default.
pub open spec fn spec_download_name(args: Map<Seq<char>, Seq<char>>) -> Seq<char> {
    if args.contains_key("name"@) {
        args["name"@]
    } else {
        "attachment"@
    }
}

/// The validated backend request a call resolves to.
#[derive(Debug)]
pub enum MailAction {
    /// Establish the server connection with the given credentials.
    Connect { url: String, user: String, pass: String },
    /// Report whether a connection is up.
    Status,
    /// List the mailboxes with their counts.
    Mailboxes,
    /// List recent messages of one mailbox.
    Query { mailbox: String, limit: u64 },
    /// Fetch one full message.
    ReadMail { id: String },
    /// Mark one message seen.
    MarkRead { id: String },
    /// List the sender identities.
    Identities,
    /// Compose and submit a message.
    SendMail { to: String, subject: String, body: String, from_addr: Option<String> },
    /// Compose and submit a reply to an existing message.
    ReplyMail { id: String, body: String },
    /// Move one message to another mailbox.
    MoveMail { id: String, mailbox: String },
    /// Discard one message, to the wastebasket or permanently.
    Delete { id: String, permanent: bool },
    /// Flag one message.
    Flag { id: String },
    /// Unflag one message.
    Unflag { id: String },
    /// Mark one message unseen.
    MarkUnread { id: String },
    /// Search all mailboxes for text.
    Search { text: String, limit: u64 },
    /// List one message's attachments.
    AttachmentList { id: String },
    /// Download one attachment blob to a file.
    AttachmentDownload { blob_id: String, name: String },
}

/// The rejection for a credential that neither the arguments nor the
/// configuration supply.
pub open spec fn no_url_message() -> Seq<char> {
    "missing 'url' argument and JMAP_URL not set"@
}

pub open spec fn no_user_message() -> Seq<char> {
    "missing 'user' argument and JMAP_USER not set"@
}

pub open spec fn no_pass_message() -> Seq<char> {
    "missing 'pass' argument and JMAP_PASS not set"@
}

/// The mail port's name.
pub fn port_name() -> (r: &'static str)
    ensures
        r@ == "mail"@,
{
    "mail"
}

/// Reads an argument with a configured fallback.
fn resolved(args: &ArgMap, key: &str, fallback: &Option<String>) -> (r: Option<String>)
    ensures
        match r {
            Some(s) => spec_resolved(args@, key@, *fallback) == Some(s@),
            None => spec_resolved(args@, key@, *fallback) is None,
        },
{
    match args.get(key) {
        Some(v) => Some(v.clone()),
        None => match fallback {
            Some(s) => Some(s.clone()),
            None => None,
        },
    }
}

/// Resolves a call into a validated backend request: unknown commands,
/// absent required arguments and malformed values are rejected here
/// with the offender named; credentials fall back to the configuration;
/// documented defaults fill absent optional arguments.
#[verifier::rlimit(100)]
pub fn plan(cmd: &str, args: &ArgMap, cfg: &MailConfig) -> (r: Result<MailAction, PortError>)
    ensures
        find_cmd_spec(spec_schema(), cmd@) is None ==> (r matches Err(e) && e.code == -1
            && e.message@ == unknown_command_message(cmd@)),
        find_cmd_spec(spec_schema(), cmd@) is None <==> (cmd@ != "connect"@ && cmd@ != "status"@ && cmd@ != "mailboxes"@ && cmd@ != "query"@ && cmd@ != "read"@ && cmd@ != "mark_read"@ && cmd@ != "identities"@ && cmd@ != "send"@ && cmd@ != "reply"@ && cmd@ != "move"@ && cmd@ != "delete"@ && cmd@ != "flag"@ && cmd@ != "unflag"@ && cmd@ != "mark_unread"@ && cmd@ != "search"@ && cmd@ != "attachment_list"@ && cmd@ != "attachment_download"@),
        cmd@ == "connect"@ ==> (match (
            spec_resolved(args@, "url"@, cfg.url),
            spec_resolved(args@, "user"@, cfg.user),
            spec_resolved(args@, "pass"@, cfg.pass),
        ) {
            (Some(u), Some(us), Some(pw)) => r matches Ok(a) && (a matches MailAction::Connect {
                url,
                user,
                pass,
            } && url@ == u && user@ == us && pass@ == pw),
            (None, _, _) => r matches Err(e) && e.code == -1 && e.message@ == no_url_message(),
            (Some(_), None, _) => r matches Err(e) && e.code == -1 && e.message@
                == no_user_message(),
            (Some(_), Some(_), None) => r matches Err(e) && e.code == -1 && e.message@
                == no_pass_message(),
        }),
        cmd@ == "status"@ ==> (r matches Ok(a) && a matches MailAction::Status),
        cmd@ == "mailboxes"@ ==> (r matches Ok(a) && a matches MailAction::Mailboxes),
        (cmd@ == "query"@ && !limit_bad(args@)) ==> (r matches Ok(a) && (a matches
        MailAction::Query { mailbox, limit } && mailbox@ == spec_mailbox_arg(args@) && limit
            == spec_limit(args@))),
        (cmd@ == "query"@ && limit_bad(args@)) ==> (r matches Err(e) && e.code == -1 && e.message@
            == invalid_arg_message("limit"@)),
        (cmd@ == "read"@ && args@.contains_key("id"@)) ==> (r matches Ok(a) && (a matches
        MailAction::ReadMail { id } && id@ == args@["id"@])),
        (cmd@ == "mark_read"@ && args@.contains_key("id"@)) ==> (r matches Ok(a) && (a matches
        MailAction::MarkRead { id } && id@ == args@["id"@])),
        cmd@ == "identities"@ ==> (r matches Ok(a) && a matches MailAction::Identities),
        (cmd@ == "send"@ && args@.contains_key("to"@) && args@.contains_key("subject"@)
            && args@.contains_key("body"@)) ==> (r matches Ok(a) && (a matches
        MailAction::SendMail { to, subject, body, from_addr } && to@ == args@["to"@] && subject@
            == args@["subject"@] && body@ == args@["body"@] && (match from_addr {
            Some(f) => args@.contains_key("from"@) && f@ == args@["from"@],
            None => !args@.contains_key("from"@),
        }))),
        (cmd@ == "send"@ && !args@.contains_key("to"@)) ==> (r matches Err(e) && e.code == -1
            && e.message@ == missing_arg_message("to"@)),
        (cmd@ == "send"@ && args@.contains_key("to"@) && !args@.contains_key("subject"@)) ==> (
        r matches Err(e) && e.code == -1 && e.message@ == missing_arg_message("subject"@)),
        (cmd@ == "send"@ && args@.contains_key("to"@) && args@.contains_key("subject"@)
            && !args@.contains_key("body"@)) ==> (r matches Err(e) && e.code == -1 && e.message@
            == missing_arg_message("body"@)),
        (cmd@ == "reply"@ && args@.contains_key("id"@) && args@.contains_key("body"@)) ==> (
        r matches Ok(a) && (a matches MailAction::ReplyMail { id, body } && id@ == args@["id"@]
            && body@ == args@["body"@])),
        (cmd@ == "reply"@ && !args@.contains_key("id"@)) ==> (r matches Err(e) && e.code == -1
            && e.message@ == missing_arg_message("id"@)),
        (cmd@ == "reply"@ && args@.contains_key("id"@) && !args@.contains_key("body"@)) ==> (
        r matches Err(e) && e.code == -1 && e.message@ == missing_arg_message("body"@)),
        (cmd@ == "move"@ && args@.contains_key("id"@) && args@.contains_key("mailbox"@)) ==> (
        r matches Ok(a) && (a matches MailAction::MoveMail { id, mailbox } && id@ == args@["id"@]
            && mailbox@ == args@["mailbox"@])),
        (cmd@ == "move"@ && !args@.contains_key("id"@)) ==> (r matches Err(e) && e.code == -1
            && e.message@ == missing_arg_message("id"@)),
        (cmd@ == "move"@ && args@.contains_key("id"@) && !args@.contains_key("mailbox"@)) ==> (
        r matches Err(e) && e.code == -1 && e.message@ == missing_arg_message("mailbox"@)),
        (cmd@ == "delete"@ && args@.contains_key("id"@) && !permanent_bad(args@)) ==> (r matches
        Ok(a) && (a matches MailAction::Delete { id, permanent } && id@ == args@["id"@]
            && permanent == spec_permanent(args@))),
        (cmd@ == "delete"@ && args@.contains_key("id"@) && permanent_bad(args@)) ==> (r matches
        Err(e) && e.code == -1 && e.message@ == invalid_arg_message("permanent"@)),
        (cmd@ == "flag"@ && args@.contains_key("id"@)) ==> (r matches Ok(a) && (a matches
        MailAction::Flag { id } && id@ == args@["id"@])),
        (cmd@ == "unflag"@ && args@.contains_key("id"@)) ==> (r matches Ok(a) && (a matches
        MailAction::Unflag { id } && id@ == args@["id"@])),
        (cmd@ == "mark_unread"@ && args@.contains_key("id"@)) ==> (r matches Ok(a) && (a matches
        MailAction::MarkUnread { id } && id@ == args@["id"@])),
        (cmd@ == "search"@ && args@.contains_key("text"@) && !limit_bad(args@)) ==> (r matches
        Ok(a) && (a matches MailAction::Search { text, limit } && text@ == args@["text"@] && limit
            == spec_limit(args@))),
        (cmd@ == "search"@ && args@.contains_key("text"@) && limit_bad(args@)) ==> (r matches
        Err(e) && e.code == -1 && e.message@ == invalid_arg_message("limit"@)),
        (cmd@ == "search"@ && !args@.contains_key("text"@)) ==> (r matches Err(e) && e.code == -1
            && e.message@ == missing_arg_message("text"@)),
        (cmd@ == "attachment_list"@ && args@.contains_key("id"@)) ==> (r matches Ok(a) && (
        a matches MailAction::AttachmentList { id } && id@ == args@["id"@])),
        (cmd@ == "attachment_download"@ && args@.contains_key("id"@)) ==> (r matches Ok(a) && (
        a matches MailAction::AttachmentDownload { blob_id, name } && blob_id@ == args@["id"@]
            && name@ == spec_download_name(args@))),
        (((cmd@ == "read"@ && !args@.contains_key("id"@)) || (cmd@ == "mark_read"@ && !args@.contains_key("id"@)) || (cmd@ == "delete"@ && !args@.contains_key("id"@)) || (cmd@ == "flag"@ && !args@.contains_key("id"@)) || (cmd@ == "unflag"@ && !args@.contains_key("id"@)) || (cmd@ == "mark_unread"@ && !args@.contains_key("id"@)) || (cmd@ == "attachment_list"@ && !args@.contains_key("id"@)) || (cmd@ == "attachment_download"@ && !args@.contains_key("id"@))) ==> (r matches Err(e) && e.code == -1 && e.message@ == missing_arg_message(
            "id"@,
        ))),
{
    proof {
        lemma_schema_lookup(cmd@);
        lemma_names_distinct();
        reveal_strlit("connect");
        reveal_strlit("status");
        reveal_strlit("mailboxes");
        reveal_strlit("query");
        reveal_strlit("read");
        reveal_strlit("mark_read");
        reveal_strlit("identities");
        reveal_strlit("send");
        reveal_strlit("reply");
        reveal_strlit("move");
        reveal_strlit("delete");
        reveal_strlit("flag");
        reveal_strlit("unflag");
        reveal_strlit("mark_unread");
        reveal_strlit("search");
        reveal_strlit("attachment_list");
        reveal_strlit("attachment_download");
    }
    if str_eq(cmd, "connect") {
        let url = match resolved(args, "url", &cfg.url) {
            Some(u) => u,
            None => {
                return Err(
                    PortError::failure(
                        String::from_str("missing 'url' argument and JMAP_URL not set"),
                    ),
                );
            },
        };
        let user = match resolved(args, "user", &cfg.user) {
            Some(u) => u,
            None => {
                return Err(
                    PortError::failure(
                        String::from_str("missing 'user' argument and JMAP_USER not set"),
                    ),
                );
            },
        };
        let pass = match resolved(args, "pass", &cfg.pass) {
            Some(p) => p,
            None => {
                return Err(
                    PortError::failure(
                        String::from_str("missing 'pass' argument and JMAP_PASS not set"),
                    ),
                );
            },
        };
        Ok(MailAction::Connect { url, user, pass })
    } else if str_eq(cmd, "status") {
        Ok(MailAction::Status)
    } else if str_eq(cmd, "mailboxes") {
        Ok(MailAction::Mailboxes)
    } else if str_eq(cmd, "query") {
        let mailbox = match args.get("mailbox") {
            Some(m) => m.clone(),
            None => String::from_str("Inbox"),
        };
        match limit_from(args) {
            Ok(limit) => Ok(MailAction::Query { mailbox, limit }),
            Err(e) => Err(e),
        }
    } else if str_eq(cmd, "read") {
        match args.get("id") {
            Some(id) => Ok(MailAction::ReadMail { id: id.clone() }),
            None => Err(missing_arg_error("id")),
        }
    } else if str_eq(cmd, "mark_read") {
        match args.get("id") {
            Some(id) => Ok(MailAction::MarkRead { id: id.clone() }),
            None => Err(missing_arg_error("id")),
        }
    } else if str_eq(cmd, "identities") {
        Ok(MailAction::Identities)
    } else if str_eq(cmd, "send") {
        let to = match args.get("to") {
            Some(t) => t.clone(),
            None => {
                return Err(missing_arg_error("to"));
            },
        };
        let subject = match args.get("subject") {
            Some(s) => s.clone(),
            None => {
                return Err(missing_arg_error("subject"));
            },
        };
        let body = match args.get("body") {
            Some(b) => b.clone(),
            None => {
                return Err(missing_arg_error("body"));
            },
        };
        let from_addr = match args.get("from") {
            Some(f) => Some(f.clone()),
            None => None,
        };
        Ok(MailAction::SendMail { to, subject, body, from_addr })
    } else if str_eq(cmd, "reply") {
        let id = match args.get("id") {
            Some(i) => i.clone(),
            None => {
                return Err(missing_arg_error("id"));
            },
        };
        let body = match args.get("body") {
            Some(b) => b.clone(),
            None => {
                return Err(missing_arg_error("body"));
            },
        };
        Ok(MailAction::ReplyMail { id, body })
    } else if str_eq(cmd, "move") {
        let id = match args.get("id") {
            Some(i) => i.clone(),
            None => {
                return Err(missing_arg_error("id"));
            },
        };
        let mailbox = match args.get("mailbox") {
            Some(m) => m.clone(),
            None => {
                return Err(missing_arg_error("mailbox"));
            },
        };
        Ok(MailAction::MoveMail { id, mailbox })
    } else if str_eq(cmd, "delete") {
        match args.get("id") {
            Some(id) => {
                let permanent = match args.get("permanent") {
                    Some(p) => {
                        if str_eq(p.as_str(), "true") || str_eq(p.as_str(), "1") {
                            true
                        } else if str_eq(p.as_str(), "false") || str_eq(p.as_str(), "0") {
                            false
                        } else {
                            return Err(invalid_arg_error("permanent"));
                        }
                    },
                    None => false,
                };
                Ok(MailAction::Delete { id: id.clone(), permanent })
            },
            None => Err(missing_arg_error("id")),
        }
    } else if str_eq(cmd, "flag") {
        match args.get("id") {
            Some(id) => Ok(MailAction::Flag { id: id.clone() }),
            None => Err(missing_arg_error("id")),
        }
    } else if str_eq(cmd, "unflag") {
        match args.get("id") {
            Some(id) => Ok(MailAction::Unflag { id: id.clone() }),
            None => Err(missing_arg_error("id")),
        }
    } else if str_eq(cmd, "mark_unread") {
        match args.get("id") {
            Some(id) => Ok(MailAction::MarkUnread { id: id.clone() }),
            None => Err(missing_arg_error("id")),
        }
    } else if str_eq(cmd, "search") {
        match args.get("text") {
            Some(t) => {
                let text = t.clone();
                match limit_from(args) {
                    Ok(limit) => Ok(MailAction::Search { text, limit }),
                    Err(e) => Err(e),
                }
            },
            None => Err(missing_arg_error("text")),
        }
    } else if str_eq(cmd, "attachment_list") {
        match args.get("id") {
            Some(id) => Ok(MailAction::AttachmentList { id: id.clone() }),
            None => Err(missing_arg_error("id")),
        }
    } else if str_eq(cmd, "attachment_download") {
        match args.get("id") {
            Some(id) => {
                let name = match args.get("name") {
                    Some(n) => n.clone(),
                    None => String::from_str("attachment"),
                };
                Ok(MailAction::AttachmentDownload { blob_id: id.clone(), name })
            },
            None => Err(missing_arg_error("id")),
        }
    } else {
        Err(unknown_command_error(cmd))
    }
}

/// Reads the result cap out of the arguments; a malformed one is
/// rejected with an error naming it.
pub fn limit_from(args: &ArgMap) -> (r: Result<u64, PortError>)
    ensures
        match r {
            Ok(v) => !limit_bad(args@) && v == spec_limit(args@),
            Err(e) => limit_bad(args@) && e.code == -1 && e.message@ == invalid_arg_message(
                "limit"@,
            ),
        },
{
    match args.get("limit") {
        Some(s) => match parse_u64(s.as_str()) {
            Some(v) => Ok(v),
            None => Err(invalid_arg_error("limit")),
        },
        None => Ok(20),
    }
}

// ===================================================================
// Connection helpers.
// ===================================================================

/// The first position of `c` in `s`, or the length where it is absent.
pub open spec fn first_ix(s: Seq<char>, c: char) -> int
    decreases s,
{
    if s.len() == 0 {
        0
    } else if s[0] == c {
        0
    } else {
        1 + first_ix(s.drop_first(), c)
    }
}

/// The prefix of `s` up to, not including, the first `c`.
pub open spec fn prefix_until(s: Seq<char>, c: char) -> Seq<char> {
    s.take(first_ix(s, c))
}

/// `s` without its scheme prefix, where it carries one.
pub open spec fn spec_strip_scheme(s: Seq<char>) -> Seq<char> {
    if s.len() >= 8 && s.take(8) == "https://"@ {
        s.skip(8)
    } else if s.len() >= 7 && s.take(7) == "http://"@ {
        s.skip(7)
    } else {
        s
    }
}

/// The hostname of a server URL: the scheme stripped, then everything
/// up to the first path separator, then everything up to the first
/// port separator. Redirect-following is restricted to this host.
pub open spec fn spec_host_of(url: Seq<char>) -> Seq<char> {
    prefix_until(prefix_until(spec_strip_scheme(url), '/'), ':')
}

/// Scans for the first `c` and keeps what stands before it.
fn take_until(v: &Vec<char>, c: char) -> (r: Vec<char>)
    ensures
        r@ == prefix_until(v@, c),
{
    let n = v.len();
    let mut j: usize = 0;
    while j < n && v[j] != c
        invariant
            j <= n,
            n == v@.len(),
            forall|k: int| 0 <= k < j ==> v@[k] != c,
        decreases n - j,
    {
        j += 1;
    }
    proof {
        lemma_first_ix_scan(v@, c, j as int);
    }
    let mut r: Vec<char> = Vec::new();
    let mut k: usize = 0;
    while k < j
        invariant
            k <= j,
            j <= v@.len(),
            r@ == v@.take(j as int).take(k as int),
        decreases j - k,
    {
        r.push(v[k]);
        proof {
            assert(v@.take(j as int).take(k as int + 1) =~= v@.take(j as int).take(k as int)
                + seq![v@[k as int]]);
        }
        k += 1;
    }
    proof {
        assert(v@.take(j as int).take(j as int) =~= v@.take(j as int));
    }
    r
}

/// A scan that stops at `j` on `c`, or at the end, found the first `c`.
proof fn lemma_first_ix_scan(s: Seq<char>, c: char, j: int)
    requires
        0 <= j <= s.len(),
        forall|k: int| 0 <= k < j ==> s[k] != c,
        j < s.len() ==> s[j] == c,
    ensures
        first_ix(s, c) == j,
    decreases s,
{
    if s.len() == 0 {
    } else if s[0] == c {
    } else {
        assert(forall|k: int| 0 <= k < j - 1 ==> s.drop_first()[k] != c);
        lemma_first_ix_scan(s.drop_first(), c, j - 1);
    }
}

/// The hostname of a server URL.
pub fn host_of(url: &str) -> (r: String)
    ensures
        r@ == spec_host_of(url@),
{
    let cs = crate::codec::str_chars(url);
    let n = cs.len();
    let mut has_https = false;
    let mut has_http = false;
    if n >= 8 {
        let p = url.substring_char(0, 8);
        if str_eq(p, "https://") {
            has_https = true;
        }
    }
    if !has_https && n >= 7 {
        let p = url.substring_char(0, 7);
        if str_eq(p, "http://") {
            has_http = true;
        }
    }
    let start: usize = if has_https {
        8
    } else if has_http {
        7
    } else {
        0
    };
    let mut rest: Vec<char> = Vec::new();
    let mut k: usize = start;
    while k < n
        invariant
            start <= k <= n,
            n == cs@.len(),
            rest@ == cs@.subrange(start as int, k as int),
        decreases n - k,
    {
        rest.push(cs[k]);
        proof {
            assert(cs@.subrange(start as int, k as int + 1) =~= cs@.subrange(
                start as int,
                k as int,
            ) + seq![cs@[k as int]]);
        }
        k += 1;
    }
    proof {
        assert(cs@.subrange(start as int, n as int) =~= cs@.skip(start as int));
        if has_https {
            assert(cs@.take(8) =~= "https://"@);
        } else if has_http {
            assert(cs@.take(7) =~= "http://"@);
            if cs@.len() >= 8 {
                assert(cs@.take(8).take(7) =~= cs@.take(7));
            }
        } else {
            if cs@.len() >= 8 && cs@.take(8) == "https://"@ {
                assert(false);
            }
            if cs@.len() >= 7 && cs@.take(7) == "http://"@ {
                assert(false);
            }
            assert(cs@.skip(0) =~= cs@);
        }
        assert(rest@ == spec_strip_scheme(url@));
    }
    let before_slash = take_until(&rest, '/');
    let host = take_until(&before_slash, ':');
    chars_to_string(&host)
}

// ===================================================================
// Reply composition.
// ===================================================================

/// Lowercases one basic-latin letter; anything else passes through.
pub open spec fn ascii_lower(c: char) -> char {
    if 65 <= c as u32 <= 90 {
        (((c as u32) + 32) as u8) as char
    } else {
        c
    }
}

/// Whether a subject already opens with a reply marker, in any casing
/// of its basic-latin letters.
pub open spec fn spec_is_re(s: Seq<char>) -> bool {
    s.len() >= 3 && ascii_lower(s[0]) == 'r' && ascii_lower(s[1]) == 'e' && s[2] == ':'
}

/// The subject a reply carries: the original's where that already
/// opens with a reply marker, else the original's behind one.
pub open spec fn spec_reply_subject(s: Seq<char>) -> Seq<char> {
    if spec_is_re(s) {
        s
    } else {
        "Re: "@ + s
    }
}

/// Lowercases one basic-latin letter.
fn ascii_lower_exec(c: char) -> (r: char)
    ensures
        r == ascii_lower(c),
{
    let u = c as u32;
    if 65 <= u && u <= 90 {
        ((u + 32) as u8) as char
    } else {
        c
    }
}

/// Builds the subject for a reply.
pub fn reply_subject(orig: &str) -> (r: String)
    ensures
        r@ == spec_reply_subject(orig@),
{
    let n = orig.unicode_len();
    let already = n >= 3 && {
        let a = ascii_lower_exec(orig.get_char(0)) == 'r';
        a
    } && ascii_lower_exec(orig.get_char(1)) == 'e' && orig.get_char(2) == ':';
    if already {
        String::from_str(orig)
    } else {
        String::from_str("Re: ").concat(orig)
    }
}

/// The views of a sequence of strings.
pub open spec fn views_of(v: Seq<String>) -> Seq<Seq<char>> {
    Seq::new(v.len(), |i: int| v[i]@)
}

/// The thread a reply answers, as its predecessor's message id.
pub fn in_reply_to_ids(message_id: &Option<String>) -> (r: Option<Vec<String>>)
    ensures
        match r {
            Some(v) => message_id matches Some(m) && views_of(v@) == seq![m@],
            None => message_id is None,
        },
{
    match message_id {
        Some(m) => {
            let mut v: Vec<String> = Vec::new();
            v.push(m.clone());
            proof {
                assert(views_of(v@) =~= seq![m@]);
            }
            Some(v)
        },
        None => None,
    }
}

/// The reference chain a reply carries: the original's references with
/// its message id appended; nothing where both are absent.
pub fn reply_references(refs: &Vec<String>, message_id: &Option<String>) -> (r: Option<
    Vec<String>,
>)
    ensures
        match r {
            Some(v) => v@.len() > 0 && views_of(v@) == views_of(refs@) + (match *message_id {
                Some(m) => seq![m@],
                None => Seq::<Seq<char>>::empty(),
            }),
            None => refs@.len() == 0 && message_id is None,
        },
{
    let mut v: Vec<String> = Vec::new();
    let n = refs.len();
    let mut j: usize = 0;
    while j < n
        invariant
            j <= n,
            n == refs@.len(),
            v@.len() == j,
            forall|k: int| 0 <= k < j ==> (#[trigger] v@[k])@ == refs@[k]@,
        decreases n - j,
    {
        v.push(refs[j].clone());
        j += 1;
    }
    match message_id {
        Some(m) => {
            v.push(m.clone());
            proof {
                assert(views_of(v@) =~= views_of(refs@) + seq![m@]);
            }
            Some(v)
        },
        None => {
            if v.len() == 0 {
                None
            } else {
                proof {
                    assert(views_of(v@) =~= views_of(refs@) + Seq::<Seq<char>>::empty());
                }
                Some(v)
            }
        },
    }
}

// ===================================================================
// Mailbox lookup.
// ===================================================================

/// One mailbox as the server reports it: its id, its display name, and
/// its role rendered as text.
pub struct MailboxInfo {
    pub id: String,
    pub name: String,
    pub role: String,
}

/// A sequence lowercased letterwise.
pub open spec fn lower_seq(s: Seq<char>) -> Seq<char> {
    Seq::new(s.len(), |i: int| ascii_lower(s[i]))
}

/// Whether a mailbox answers to a requested name: by display name or
/// role in any basic-latin casing, or by exact id.
pub open spec fn mailbox_matches(mb: MailboxInfo, name: Seq<char>) -> bool {
    lower_seq(mb.name@) == lower_seq(name) || lower_seq(mb.role@) == lower_seq(name) || mb.id@
        == name
}

/// The first mailbox answering to the name, if any.
pub open spec fn find_mb_spec(list: Seq<MailboxInfo>, name: Seq<char>) -> Option<MailboxInfo>
    decreases list,
{
    if list.len() == 0 {
        None
    } else if mailbox_matches(list[0], name) {
        Some(list[0])
    } else {
        find_mb_spec(list.drop_first(), name)
    }
}

/// What a failed mailbox lookup reports.
pub open spec fn mailbox_not_found_message(name: Seq<char>) -> Seq<char> {
    "mailbox not found: "@ + name
}

/// Lowercases a string letterwise.
fn lower_string(s: &str) -> (r: String)
    ensures
        r@ == lower_seq(s@),
{
    let n = s.unicode_len();
    let mut out: Vec<char> = Vec::new();
    let mut j: usize = 0;
    while j < n
        invariant
            j <= n,
            n == s@.len(),
            out@.len() == j,
            forall|k: int| 0 <= k < j ==> out@[k] == ascii_lower(s@[k]),
        decreases n - j,
    {
        out.push(ascii_lower_exec(s.get_char(j)));
        j += 1;
    }
    proof {
        assert(out@ =~= lower_seq(s@));
    }
    chars_to_string(&out)
}

/// Finds the mailbox a name denotes: the first whose display name or
/// role matches in any basic-latin casing, or whose id matches
/// exactly; an unmatched name is rejected with a message carrying it.
pub fn find_mailbox(list: &Vec<MailboxInfo>, name: &str) -> (r: Result<String, PortError>)
    ensures
        match r {
            Ok(id) => find_mb_spec(list@, name@) matches Some(mb) && id@ == mb.id@,
            Err(e) => find_mb_spec(list@, name@) is None && e.code == -1 && e.message@
                == mailbox_not_found_message(name@),
        },
{
    let ghost l = list@;
    let target = lower_string(name);
    let n = list.len();
    proof {
        assert(l.skip(0) =~= l);
    }
    let mut j: usize = 0;
    while j < n
        invariant
            j <= n,
            n == l.len(),
            l == list@,
            target@ == lower_seq(name@),
            find_mb_spec(l, name@) == find_mb_spec(l.skip(j as int), name@),
        decreases n - j,
    {
        proof {
            assert(l.skip(j as int)[0] == l[j as int]);
            assert(l.skip(j as int).drop_first() =~= l.skip(j as int + 1));
        }
        let mb = &list[j];
        let lname = lower_string(mb.name.as_str());
        let lrole = lower_string(mb.role.as_str());
        if str_eq(lname.as_str(), target.as_str()) || str_eq(lrole.as_str(), target.as_str())
            || str_eq(mb.id.as_str(), name) {
            return Ok(mb.id.clone());
        }
        j += 1;
    }
    proof {
        assert(l.skip(n as int).len() == 0);
    }
    Err(PortError::failure(String::from_str("mailbox not found: ").concat(name)))
}

// ===================================================================
// Rendering server data as values.
// ===================================================================

/// One address as the server reports it.
pub struct Address {
    pub name: String,
    pub email: String,
}

/// One address as text: the bare address, or the display name with the
/// address in angle brackets.
pub open spec fn addr_text(name: Seq<char>, email: Seq<char>) -> Seq<char> {
    if name.len() == 0 {
        email
    } else {
        name + " <"@ + email + ">"@
    }
}

/// An address list as text, comma-separated.
pub open spec fn addrs_text(l: Seq<Address>) -> Seq<char>
    decreases l,
{
    if l.len() == 0 {
        Seq::empty()
    } else if l.len() == 1 {
        addr_text(l[0].name@, l[0].email@)
    } else {
        addr_text(l[0].name@, l[0].email@) + ", "@ + addrs_text(l.drop_first())
    }
}

/// Renders one address.
fn format_address(a: &Address) -> (r: String)
    ensures
        r@ == addr_text(a.name@, a.email@),
{
    if a.name.as_str().unicode_len() == 0 {
        a.email.clone()
    } else {
        a.name.clone().concat(" <").concat(a.email.as_str()).concat(">")
    }
}

/// Renders an address list, comma-separated.
pub fn format_addresses(l: &Vec<Address>) -> (r: String)
    ensures
        r@ == addrs_text(l@),
{
    let ghost sq = l@;
    let n = l.len();
    if n == 0 {
        proof {
            assert(""@ =~= Seq::<char>::empty()) by {
                reveal_strlit("");
            }
        }
        return String::from_str("");
    }
    let mut out = format_address(&l[0]);
    proof {
        lemma_addrs_text_as_tail(sq);
    }
    let mut j: usize = 1;
    while j < n
        invariant
            1 <= j <= n,
            n == l@.len(),
            sq == l@,
            out@ + addrs_sep_tail(sq, j as int) == addrs_text(sq),
        decreases n - j,
    {
        proof {
            lemma_addrs_tail_step(sq, j as int);
        }
        out = out.concat(", ").concat(format_address(&l[j]).as_str());
        j += 1;
    }
    proof {
        assert(addrs_sep_tail(sq, n as int) =~= Seq::<char>::empty());
        assert(out@ =~= out@ + addrs_sep_tail(sq, n as int));
    }
    out
}

/// The rendering of the addresses from position `j` on, each preceded
/// by a separator.
pub open spec fn addrs_sep_tail(l: Seq<Address>, j: int) -> Seq<char>
    decreases l.len() - j,
{
    if j < 0 || j >= l.len() {
        Seq::empty()
    } else {
        ", "@ + addr_text(l[j].name@, l[j].email@) + addrs_sep_tail(l, j + 1)
    }
}

/// Splitting the comma-joined rendering after any head.
proof fn lemma_addrs_tail_step(l: Seq<Address>, j: int)
    requires
        1 <= j < l.len(),
    ensures
        addrs_sep_tail(l, j) == ", "@ + addr_text(l[j].name@, l[j].email@) + addrs_sep_tail(
            l,
            j + 1,
        ),
        addrs_text(l) == (addrs_text(l) + Seq::<char>::empty()),
{
    assert(addrs_text(l) + Seq::<char>::empty() =~= addrs_text(l));
}

/// The head-plus-tails reading of the comma-joined rendering.
proof fn lemma_addrs_text_as_tail(l: Seq<Address>)
    requires
        l.len() >= 1,
    ensures
        addrs_text(l) == addr_text(l[0].name@, l[0].email@) + addrs_sep_tail(l, 1),
    decreases l.len(),
{
    if l.len() == 1 {
        assert(addrs_sep_tail(l, 1) =~= Seq::<char>::empty());
        assert(addr_text(l[0].name@, l[0].email@) + Seq::<char>::empty() =~= addr_text(
            l[0].name@,
            l[0].email@,
        ));
    } else {
        let d = l.drop_first();
        lemma_addrs_text_as_tail(d);
        lemma_addrs_sep_tail_shift(l, 1);
        assert(addrs_text(l) == addr_text(l[0].name@, l[0].email@) + ", "@ + addrs_text(d));
        assert(addrs_text(d) == addr_text(d[0].name@, d[0].email@) + addrs_sep_tail(d, 1));
        assert(addr_text(l[0].name@, l[0].email@) + ", "@ + (addr_text(d[0].name@, d[0].email@)
            + addrs_sep_tail(d, 1)) =~= addr_text(l[0].name@, l[0].email@) + (", "@ + addr_text(
            d[0].name@,
            d[0].email@,
        ) + addrs_sep_tail(d, 1)));
    }
}

/// Tails over a dropped head line up.
proof fn lemma_addrs_sep_tail_shift(l: Seq<Address>, j: int)
    requires
        1 <= j <= l.len(),
    ensures
        addrs_sep_tail(l, j) == addrs_sep_tail(l.drop_first(), j - 1),
    decreases l.len() - j,
{
    if j < l.len() {
        lemma_addrs_sep_tail_shift(l, j + 1);
        assert(l.drop_first()[j - 1] == l[j]);
    }
}

// ===================================================================
// Rendering server data as values.
// ===================================================================

/// One message summary as the server reports it, already as text.
pub struct EmailSummary {
    pub id: String,
    pub subject: String,
    pub from_text: String,
    pub date: String,
    pub preview: String,
}

/// One mailbox with its message counts.
pub struct MailboxEntry {
    pub info: MailboxInfo,
    pub total: i64,
    pub unread: i64,
}

/// One attachment as the server reports it.
pub struct AttachmentInfo {
    pub name: String,
    pub content_type: String,
    pub size: i64,
    pub blob_id: String,
}

/// One message summary, as the listing commands report it.
pub open spec fn summary_model(e: EmailSummary) -> ValueModel {
    ValueModel::Object(seq![
        (seq!['i', 'd'], ValueModel::Str(e.id@)),
        (seq!['s', 'u', 'b', 'j', 'e', 'c', 't'], ValueModel::Str(e.subject@)),
        (seq!['f', 'r', 'o', 'm'], ValueModel::Str(e.from_text@)),
        (seq!['d', 'a', 't', 'e'], ValueModel::Str(e.date@)),
        (seq!['p', 'r', 'e', 'v', 'i', 'e', 'w'], ValueModel::Str(e.preview@)),
    ])
}

/// Renders it as a value.
pub fn summary_value(e: &EmailSummary) -> (r: PortValue)
    ensures
        r.model() == summary_model(*e),
{
    let mut entries: Vec<Entry> = Vec::new();
    entries.push(Entry { key: String::from_str("id"), value: PortValue::Str(e.id.clone()) });
    entries.push(Entry { key: String::from_str("subject"), value: PortValue::Str(e.subject.clone()) });
    entries.push(Entry { key: String::from_str("from"), value: PortValue::Str(e.from_text.clone()) });
    entries.push(Entry { key: String::from_str("date"), value: PortValue::Str(e.date.clone()) });
    entries.push(Entry { key: String::from_str("preview"), value: PortValue::Str(e.preview.clone()) });
    proof {
        reveal_strlit("id");
        assert("id"@ =~= seq!['i', 'd']);
        reveal_strlit("subject");
        assert("subject"@ =~= seq!['s', 'u', 'b', 'j', 'e', 'c', 't']);
        reveal_strlit("from");
        assert("from"@ =~= seq!['f', 'r', 'o', 'm']);
        reveal_strlit("date");
        assert("date"@ =~= seq!['d', 'a', 't', 'e']);
        reveal_strlit("preview");
        assert("preview"@ =~= seq!['p', 'r', 'e', 'v', 'i', 'e', 'w']);
        crate::value::lemma_entry_models_of_len(entries@);
        assert(crate::value::model_of(entries@[0].value) =~~= ValueModel::Str(e.id@));
        assert(crate::value::model_of(entries@[1].value) =~~= ValueModel::Str(e.subject@));
        assert(crate::value::model_of(entries@[2].value) =~~= ValueModel::Str(e.from_text@));
        assert(crate::value::model_of(entries@[3].value) =~~= ValueModel::Str(e.date@));
        assert(crate::value::model_of(entries@[4].value) =~~= ValueModel::Str(e.preview@));
        assert(crate::value::entry_models_of(entries@) =~~= summary_model(*e)->Object_0);
        assert(PortValue::Object(entries).model() =~~= summary_model(*e));
    }
    PortValue::Object(entries)
}

/// One mailbox with its counts, as the mailbox listing reports it.
pub open spec fn mailbox_model(e: MailboxEntry) -> ValueModel {
    ValueModel::Object(seq![
        (seq!['i', 'd'], ValueModel::Str(e.info.id@)),
        (seq!['n', 'a', 'm', 'e'], ValueModel::Str(e.info.name@)),
        (seq!['r', 'o', 'l', 'e'], ValueModel::Str(e.info.role@)),
        (seq!['t', 'o', 't', 'a', 'l'], ValueModel::Int(e.total as int)),
        (seq!['u', 'n', 'r', 'e', 'a', 'd'], ValueModel::Int(e.unread as int)),
    ])
}

/// Renders it as a value.
pub fn mailbox_value(e: &MailboxEntry) -> (r: PortValue)
    ensures
        r.model() == mailbox_model(*e),
{
    let mut entries: Vec<Entry> = Vec::new();
    entries.push(Entry { key: String::from_str("id"), value: PortValue::Str(e.info.id.clone()) });
    entries.push(Entry { key: String::from_str("name"), value: PortValue::Str(e.info.name.clone()) });
    entries.push(Entry { key: String::from_str("role"), value: PortValue::Str(e.info.role.clone()) });
    entries.push(Entry { key: String::from_str("total"), value: PortValue::Int(e.total) });
    entries.push(Entry { key: String::from_str("unread"), value: PortValue::Int(e.unread) });
    proof {
        reveal_strlit("id");
        assert("id"@ =~= seq!['i', 'd']);
        reveal_strlit("name");
        assert("name"@ =~= seq!['n', 'a', 'm', 'e']);
        reveal_strlit("role");
        assert("role"@ =~= seq!['r', 'o', 'l', 'e']);
        reveal_strlit("total");
        assert("total"@ =~= seq!['t', 'o', 't', 'a', 'l']);
        reveal_strlit("unread");
        assert("unread"@ =~= seq!['u', 'n', 'r', 'e', 'a', 'd']);
        crate::value::lemma_entry_models_of_len(entries@);
        assert(crate::value::model_of(entries@[0].value) =~~= ValueModel::Str(e.info.id@));
        assert(crate::value::model_of(entries@[1].value) =~~= ValueModel::Str(e.info.name@));
        assert(crate::value::model_of(entries@[2].value) =~~= ValueModel::Str(e.info.role@));
        assert(crate::value::model_of(entries@[3].value) =~~= ValueModel::Int(e.total as int));
        assert(crate::value::model_of(entries@[4].value) =~~= ValueModel::Int(e.unread as int));
        assert(crate::value::entry_models_of(entries@) =~~= mailbox_model(*e)->Object_0);
        assert(PortValue::Object(entries).model() =~~= mailbox_model(*e));
    }
    PortValue::Object(entries)
}

/// One attachment, as the attachment listing reports it.
pub open spec fn attachment_model(e: AttachmentInfo) -> ValueModel {
    ValueModel::Object(seq![
        (seq!['n', 'a', 'm', 'e'], ValueModel::Str(e.name@)),
        (seq!['t', 'y', 'p', 'e'], ValueModel::Str(e.content_type@)),
        (seq!['s', 'i', 'z', 'e'], ValueModel::Int(e.size as int)),
        (seq!['b', 'l', 'o', 'b', '_', 'i', 'd'], ValueModel::Str(e.blob_id@)),
    ])
}

/// Renders it as a value.
pub fn attachment_value(e: &AttachmentInfo) -> (r: PortValue)
    ensures
        r.model() == attachment_model(*e),
{
    let mut entries: Vec<Entry> = Vec::new();
    entries.push(Entry { key: String::from_str("name"), value: PortValue::Str(e.name.clone()) });
    entries.push(Entry { key: String::from_str("type"), value: PortValue::Str(e.content_type.clone()) });
    entries.push(Entry { key: String::from_str("size"), value: PortValue::Int(e.size) });
    entries.push(Entry { key: String::from_str("blob_id"), value: PortValue::Str(e.blob_id.clone()) });
    proof {
        reveal_strlit("name");
        assert("name"@ =~= seq!['n', 'a', 'm', 'e']);
        reveal_strlit("type");
        assert("type"@ =~= seq!['t', 'y', 'p', 'e']);
        reveal_strlit("size");
        assert("size"@ =~= seq!['s', 'i', 'z', 'e']);
        reveal_strlit("blob_id");
        assert("blob_id"@ =~= seq!['b', 'l', 'o', 'b', '_', 'i', 'd']);
        crate::value::lemma_entry_models_of_len(entries@);
        assert(crate::value::model_of(entries@[0].value) =~~= ValueModel::Str(e.name@));
        assert(crate::value::model_of(entries@[1].value) =~~= ValueModel::Str(e.content_type@));
        assert(crate::value::model_of(entries@[2].value) =~~= ValueModel::Int(e.size as int));
        assert(crate::value::model_of(entries@[3].value) =~~= ValueModel::Str(e.blob_id@));
        assert(crate::value::entry_models_of(entries@) =~~= attachment_model(*e)->Object_0);
        assert(PortValue::Object(entries).model() =~~= attachment_model(*e));
    }
    PortValue::Object(entries)
}

/// One full message as the server reports it, already as text.
pub struct EmailDetails {
    pub id: String,
    pub subject: String,
    pub from_text: String,
    pub to_text: String,
    pub date: String,
    pub preview: String,
    pub body: String,
    pub keywords: Vec<String>,
}

/// The keyword strings as value models.
pub open spec fn keyword_models(v: Seq<String>) -> Seq<ValueModel> {
    Seq::new(v.len(), |i: int| ValueModel::Str(v[i]@))
}

/// One full message, as `read` reports it.
pub open spec fn details_model(e: EmailDetails) -> ValueModel {
    ValueModel::Object(seq![
        (seq!['i', 'd'], ValueModel::Str(e.id@)),
        (seq!['s', 'u', 'b', 'j', 'e', 'c', 't'], ValueModel::Str(e.subject@)),
        (seq!['f', 'r', 'o', 'm'], ValueModel::Str(e.from_text@)),
        (seq!['t', 'o'], ValueModel::Str(e.to_text@)),
        (seq!['d', 'a', 't', 'e'], ValueModel::Str(e.date@)),
        (seq!['p', 'r', 'e', 'v', 'i', 'e', 'w'], ValueModel::Str(e.preview@)),
        (seq!['b', 'o', 'd', 'y'], ValueModel::Str(e.body@)),
        (seq!['k', 'e', 'y', 'w', 'o', 'r', 'd', 's'], ValueModel::List(keyword_models(e.keywords@))),
    ])
}

/// Renders a full message as a value.
#[verifier::rlimit(100)]
pub fn details_value(e: &EmailDetails) -> (r: PortValue)
    ensures
        r.model() == details_model(*e),
{
    let mut kws: Vec<PortValue> = Vec::new();
    let n = e.keywords.len();
    let mut j: usize = 0;
    while j < n
        invariant
            j <= n,
            n == e.keywords@.len(),
            kws@.len() == j,
            forall|k: int| 0 <= k < j ==> crate::value::model_of(#[trigger] kws@[k])
                == ValueModel::Str(e.keywords@[k]@),
        decreases n - j,
    {
        kws.push(PortValue::Str(e.keywords[j].clone()));
        j += 1;
    }
    proof {
        crate::value::lemma_models_of_len(kws@);
        assert(crate::value::models_of(kws@) =~~= keyword_models(e.keywords@));
    }
    let mut entries: Vec<Entry> = Vec::new();
    entries.push(Entry { key: String::from_str("id"), value: PortValue::Str(e.id.clone()) });
    entries.push(
        Entry { key: String::from_str("subject"), value: PortValue::Str(e.subject.clone()) },
    );
    entries.push(
        Entry { key: String::from_str("from"), value: PortValue::Str(e.from_text.clone()) },
    );
    entries.push(Entry { key: String::from_str("to"), value: PortValue::Str(e.to_text.clone()) });
    entries.push(Entry { key: String::from_str("date"), value: PortValue::Str(e.date.clone()) });
    entries.push(
        Entry { key: String::from_str("preview"), value: PortValue::Str(e.preview.clone()) },
    );
    entries.push(Entry { key: String::from_str("body"), value: PortValue::Str(e.body.clone()) });
    entries.push(Entry { key: String::from_str("keywords"), value: PortValue::List(kws) });
    proof {
        reveal_strlit("id");
        reveal_strlit("subject");
        reveal_strlit("from");
        reveal_strlit("to");
        reveal_strlit("date");
        reveal_strlit("preview");
        reveal_strlit("body");
        reveal_strlit("keywords");
        assert("id"@ =~= seq!['i', 'd']);
        assert("subject"@ =~= seq!['s', 'u', 'b', 'j', 'e', 'c', 't']);
        assert("from"@ =~= seq!['f', 'r', 'o', 'm']);
        assert("to"@ =~= seq!['t', 'o']);
        assert("date"@ =~= seq!['d', 'a', 't', 'e']);
        assert("preview"@ =~= seq!['p', 'r', 'e', 'v', 'i', 'e', 'w']);
        assert("body"@ =~= seq!['b', 'o', 'd', 'y']);
        assert("keywords"@ =~= seq!['k', 'e', 'y', 'w', 'o', 'r', 'd', 's']);
        crate::value::lemma_entry_models_of_len(entries@);
        assert(crate::value::model_of(entries@[0].value) =~~= ValueModel::Str(e.id@));
        assert(crate::value::model_of(entries@[1].value) =~~= ValueModel::Str(e.subject@));
        assert(crate::value::model_of(entries@[2].value) =~~= ValueModel::Str(e.from_text@));
        assert(crate::value::model_of(entries@[3].value) =~~= ValueModel::Str(e.to_text@));
        assert(crate::value::model_of(entries@[4].value) =~~= ValueModel::Str(e.date@));
        assert(crate::value::model_of(entries@[5].value) =~~= ValueModel::Str(e.preview@));
        assert(crate::value::model_of(entries@[6].value) =~~= ValueModel::Str(e.body@));
        assert(crate::value::model_of(entries@[7].value) =~~= ValueModel::List(
            keyword_models(e.keywords@),
        ));
        assert(crate::value::entry_models_of(entries@) =~~= details_model(*e)->Object_0);
        assert(PortValue::Object(entries).model() =~~= details_model(*e));
    }
    PortValue::Object(entries)
}

/// The body text of a message: the value of the first text part whose
/// content was fetched, else the preview.
pub open spec fn spec_extract_body(
    parts: Seq<String>,
    values: Map<Seq<char>, Seq<char>>,
    preview: Seq<char>,
) -> Seq<char>
    decreases parts,
{
    if parts.len() == 0 {
        preview
    } else if values.contains_key(parts[0]@) {
        values[parts[0]@]
    } else {
        spec_extract_body(parts.drop_first(), values, preview)
    }
}

/// Picks the body text out of the fetched parts.
pub fn extract_body(parts: &Vec<String>, values: &ArgMap, preview: &str) -> (r: String)
    ensures
        r@ == spec_extract_body(parts@, values@, preview@),
{
    let ghost ps = parts@;
    let n = parts.len();
    proof {
        assert(ps.skip(0) =~= ps);
    }
    let mut j: usize = 0;
    while j < n
        invariant
            j <= n,
            n == ps.len(),
            ps == parts@,
            spec_extract_body(ps, values@, preview@) == spec_extract_body(
                ps.skip(j as int),
                values@,
                preview@,
            ),
        decreases n - j,
    {
        proof {
            assert(ps.skip(j as int)[0] == ps[j as int]);
            assert(ps.skip(j as int).drop_first() =~= ps.skip(j as int + 1));
        }
        match values.get(parts[j].as_str()) {
            Some(v) => {
                return v.clone();
            },
            None => {},
        }
        j += 1;
    }
    proof {
        assert(ps.skip(n as int).len() == 0);
    }
    String::from_str(preview)
}

// ===================================================================
// Filename hygiene for downloads.
// ===================================================================

/// Whether a character counts as alphanumeric for filename purposes.
pub uninterp spec fn unicode_alnum(c: char) -> bool;

/// Relies on `char::is_alphanumeric`: the classification depends on
/// the character alone.
#[verifier::external_body]
fn is_alnum(c: char) -> (r: bool)
    ensures
        r == unicode_alnum(c),
{
    c.is_alphanumeric()
}

/// A filename with every character outside letters, digits, dots,
/// dashes and underscores replaced by an underscore.
pub open spec fn spec_sanitized(s: Seq<char>) -> Seq<char> {
    Seq::new(
        s.len(),
        |i: int|
            if unicode_alnum(s[i]) || s[i] == '.' || s[i] == '-' || s[i] == '_' {
                s[i]
            } else {
                '_'
            },
    )
}

/// Makes a download filename safe to write.
pub fn sanitize_name(s: &str) -> (r: String)
    ensures
        r@ == spec_sanitized(s@),
{
    let n = s.unicode_len();
    let mut out: Vec<char> = Vec::new();
    let mut j: usize = 0;
    while j < n
        invariant
            j <= n,
            n == s@.len(),
            out@.len() == j,
            forall|k: int| 0 <= k < j ==> out@[k] == spec_sanitized(s@)[k],
        decreases n - j,
    {
        let c = s.get_char(j);
        if is_alnum(c) || c == '.' || c == '-' || c == '_' {
            out.push(c);
        } else {
            out.push('_');
        }
        j += 1;
    }
    proof {
        assert(out@ =~= spec_sanitized(s@));
    }
    chars_to_string(&out)
}

// ===================================================================
// Success messages.
// ===================================================================

/// What a successful connect reports.
pub open spec fn connect_ok_message(url: Seq<char>, user: Seq<char>, account: Seq<char>) -> Seq<char> {
    "connected to "@ + url + " as "@ + user + " (account: "@ + account + ")"@
}

/// What a successful connect reports.
pub fn connect_ok_text(url: &str, user: &str, account: &str) -> (r: String)
    ensures
        r@ == connect_ok_message(url@, user@, account@),
{
    String::from_str("connected to ").concat(url).concat(" as ").concat(user).concat(" (account: ").concat(account).concat(")")
}

/// What status reports while connected.
pub open spec fn status_connected_message(url: Seq<char>, account: Seq<char>) -> Seq<char> {
    "connected \u{2014} session: "@ + url + ", account: "@ + account
}

/// What status reports while connected.
pub fn status_connected_text(url: &str, account: &str) -> (r: String)
    ensures
        r@ == status_connected_message(url@, account@),
{
    String::from_str("connected \u{2014} session: ").concat(url).concat(", account: ").concat(account)
}

/// What a successful mark_read reports.
pub open spec fn mark_read_ok_message(id: Seq<char>) -> Seq<char> {
    "marked "@ + id + " as read"@
}

/// What a successful mark_read reports.
pub fn mark_read_ok_text(id: &str) -> (r: String)
    ensures
        r@ == mark_read_ok_message(id@),
{
    String::from_str("marked ").concat(id).concat(" as read")
}

/// What a successful mark_unread reports.
pub open spec fn mark_unread_ok_message(id: Seq<char>) -> Seq<char> {
    "marked "@ + id + " as unread"@
}

/// What a successful mark_unread reports.
pub fn mark_unread_ok_text(id: &str) -> (r: String)
    ensures
        r@ == mark_unread_ok_message(id@),
{
    String::from_str("marked ").concat(id).concat(" as unread")
}

/// What a successful flag reports.
pub open spec fn flag_ok_message(id: Seq<char>) -> Seq<char> {
    "flagged "@ + id
}

/// What a successful flag reports.
pub fn flag_ok_text(id: &str) -> (r: String)
    ensures
        r@ == flag_ok_message(id@),
{
    String::from_str("flagged ").concat(id)
}

/// What a successful unflag reports.
pub open spec fn unflag_ok_message(id: Seq<char>) -> Seq<char> {
    "unflagged "@ + id
}

/// What a successful unflag reports.
pub fn unflag_ok_text(id: &str) -> (r: String)
    ensures
        r@ == unflag_ok_message(id@),
{
    String::from_str("unflagged ").concat(id)
}

/// What a successful move reports.
pub open spec fn moved_ok_message(id: Seq<char>, mailbox: Seq<char>) -> Seq<char> {
    "moved "@ + id + " to "@ + mailbox
}

/// What a successful move reports.
pub fn moved_ok_text(id: &str, mailbox: &str) -> (r: String)
    ensures
        r@ == moved_ok_message(id@, mailbox@),
{
    String::from_str("moved ").concat(id).concat(" to ").concat(mailbox)
}

/// What a successful permanent delete reports.
pub open spec fn deleted_ok_message(id: Seq<char>) -> Seq<char> {
    "deleted "@ + id
}

/// What a successful permanent delete reports.
pub fn deleted_ok_text(id: &str) -> (r: String)
    ensures
        r@ == deleted_ok_message(id@),
{
    String::from_str("deleted ").concat(id)
}

/// What a successful soft delete reports.
pub open spec fn trashed_ok_message(id: Seq<char>) -> Seq<char> {
    "moved "@ + id + " to Trash"@
}

/// What a successful soft delete reports.
pub fn trashed_ok_text(id: &str) -> (r: String)
    ensures
        r@ == trashed_ok_message(id@),
{
    String::from_str("moved ").concat(id).concat(" to Trash")
}

/// What a successful send reports.
pub open spec fn sent_ok_message(to: Seq<char>, submission: Seq<char>) -> Seq<char> {
    "sent to "@ + to + " (submission: "@ + submission + ")"@
}

/// What a successful send reports.
pub fn sent_ok_text(to: &str, submission: &str) -> (r: String)
    ensures
        r@ == sent_ok_message(to@, submission@),
{
    String::from_str("sent to ").concat(to).concat(" (submission: ").concat(submission).concat(")")
}

/// What a successful reply reports.
pub open spec fn replied_ok_message(id: Seq<char>, submission: Seq<char>) -> Seq<char> {
    "replied to "@ + id + " (submission: "@ + submission + ")"@
}

/// What a successful reply reports.
pub fn replied_ok_text(id: &str, submission: &str) -> (r: String)
    ensures
        r@ == replied_ok_message(id@, submission@),
{
    String::from_str("replied to ").concat(id).concat(" (submission: ").concat(submission).concat(")")
}

/// What status reports while no connection is up.
pub fn disconnected_text() -> (r: String)
    ensures
        r@ == "disconnected"@,
{
    String::from_str("disconnected")
}

/// What a successful attachment download reports: where it was saved
/// and how large it was.
pub open spec fn saved_ok_message(path: Seq<char>, nbytes: nat) -> Seq<char> {
    "saved to "@ + path + " ("@ + dec_digits(nbytes) + " bytes)"@
}

/// What a successful attachment download reports.
pub fn saved_ok_text(path: &str, nbytes: u64) -> (r: String)
    ensures
        r@ == saved_ok_message(path@, nbytes as nat),
{
    let n = u64_to_string(nbytes);
    String::from_str("saved to ").concat(path).concat(" (").concat(n.as_str()).concat(" bytes)")
}

/// One sender identity as the server reports it.
pub struct IdentityInfo {
    pub id: String,
    pub name: String,
    pub email: String,
    pub reply_to: String,
}

/// One sender identity, as the identity listing reports it.
pub open spec fn identity_model(e: IdentityInfo) -> ValueModel {
    ValueModel::Object(seq![
        (seq!['i', 'd'], ValueModel::Str(e.id@)),
        (seq!['n', 'a', 'm', 'e'], ValueModel::Str(e.name@)),
        (seq!['e', 'm', 'a', 'i', 'l'], ValueModel::Str(e.email@)),
        (seq!['r', 'e', 'p', 'l', 'y', '_', 't', 'o'], ValueModel::Str(e.reply_to@)),
    ])
}

/// Renders one sender identity as a value.
pub fn identity_value(e: &IdentityInfo) -> (r: PortValue)
    ensures
        r.model() == identity_model(*e),
{
    let mut entries: Vec<Entry> = Vec::new();
    entries.push(Entry { key: String::from_str("id"), value: PortValue::Str(e.id.clone()) });
    entries.push(Entry { key: String::from_str("name"), value: PortValue::Str(e.name.clone()) });
    entries.push(Entry { key: String::from_str("email"), value: PortValue::Str(e.email.clone()) });
    entries.push(Entry { key: String::from_str("reply_to"), value: PortValue::Str(e.reply_to.clone()) });
    proof {
        reveal_strlit("id");
        assert("id"@ =~= seq!['i', 'd']);
        reveal_strlit("name");
        assert("name"@ =~= seq!['n', 'a', 'm', 'e']);
        reveal_strlit("email");
        assert("email"@ =~= seq!['e', 'm', 'a', 'i', 'l']);
        reveal_strlit("reply_to");
        assert("reply_to"@ =~= seq!['r', 'e', 'p', 'l', 'y', '_', 't', 'o']);
        crate::value::lemma_entry_models_of_len(entries@);
        assert(crate::value::model_of(entries@[0].value) =~~= ValueModel::Str(e.id@));
        assert(crate::value::model_of(entries@[1].value) =~~= ValueModel::Str(e.name@));
        assert(crate::value::model_of(entries@[2].value) =~~= ValueModel::Str(e.email@));
        assert(crate::value::model_of(entries@[3].value) =~~= ValueModel::Str(e.reply_to@));
        assert(crate::value::entry_models_of(entries@) =~~= identity_model(*e)->Object_0);
        assert(PortValue::Object(entries).model() =~~= identity_model(*e));
    }
    PortValue::Object(entries)
}

} // verus!
