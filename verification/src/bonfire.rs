use vstd::prelude::*;

use crate::text::same;

verus! {

/// Where the event server listens unless it is told otherwise.
pub const DEFAULT_HOST: &'static str = "0.0.0.0:14703";

/// Whether who is online is forgotten when the event server starts: unless it is told not to.
pub fn clears_presence(no_clear_presence: &Option<String>) -> (result: bool)
    ensures
        result == !(*no_clear_presence matches Some(text) && text@ == "1"@),
{
    match no_clear_presence {
        Some(text) => !same(text.as_str(), "1"),
        None => true,
    }
}

/// Where the event server listens.
pub fn bind_address(host: Option<String>) -> (address: String)
    ensures
        match host {
            Some(text) => address == text,
            None => address@ == DEFAULT_HOST@,
        },
{
    match host {
        Some(text) => text,
        None => DEFAULT_HOST.to_owned(),
    }
}

/// Who is online is kept over a start exactly if the setting reads one.
pub proof fn law_presence_is_kept_on_demand(no_clear_presence: &Option<String>, result: bool)
    requires
        call_ensures(clears_presence, (no_clear_presence,), result),
    ensures
        !result <==> *no_clear_presence is Some && (*no_clear_presence)->0@.len() == 1 && (
        *no_clear_presence)->0@[0] == '1',
{
    reveal_strlit("1");
    if *no_clear_presence is Some && (*no_clear_presence)->0@.len() == 1 && (
    *no_clear_presence)->0@[0] == '1' {
        assert((*no_clear_presence)->0@ =~= "1"@);
    }
}

/// The event server listens where it is told to, else on its own port.
pub proof fn law_listens_where_told(host: Option<String>, address: String)
    requires
        call_ensures(bind_address, (host,), address),
    ensures
        host is Some ==> address@ == host->0@,
        host is None ==> address@ == "0.0.0.0:14703"@,
{
}

} // verus!
