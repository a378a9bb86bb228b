use vstd::prelude::*;

verus! {

/// The access log line for `action` taken from `peer_addr` at `timestamp`.
pub open spec fn access_line(action: Seq<char>, peer_addr: Seq<char>, timestamp: Seq<char>) -> Seq<char> {
    "Ação: "@ + action + " | IP: "@ + peer_addr + " | Horário: "@ + timestamp
}

/// The log line for a request from `peer_addr` for the unknown route `path`
/// at `timestamp`.
pub open spec fn not_found_line(peer_addr: Seq<char>, path: Seq<char>, timestamp: Seq<char>) -> Seq<char> {
    "Erro 404: Rota não encontrada | IP: "@ + peer_addr + " | Rota: "@ + path + " | Horário: "@ + timestamp
}

/// The line to log for `action`; nothing when the client's address is
/// unknown.
pub fn log_access(action: &str, peer_addr: Option<&str>, timestamp: &str) -> (line: Option<String>)
    ensures
        match peer_addr {
            Some(ip) => line matches Some(l) && l@ == access_line(action@, ip@, timestamp@),
            None => line is None,
        },
{
    match peer_addr {
        Some(ip) => {
            let mut l = String::from_str("Ação: ");
            l.append(action);
            l.append(" | IP: ");
            l.append(ip);
            l.append(" | Horário: ");
            l.append(timestamp);
            Some(l)
        },
        None => None,
    }
}

/// The line to log for a request of the unknown route `path`; nothing when
/// the client's address is unknown.
pub fn log_not_found(peer_addr: Option<&str>, path: &str, timestamp: &str) -> (line: Option<String>)
    ensures
        match peer_addr {
            Some(ip) => line matches Some(l) && l@ == not_found_line(ip@, path@, timestamp@),
            None => line is None,
        },
{
    match peer_addr {
        Some(ip) => {
            let mut l = String::from_str("Erro 404: Rota não encontrada | IP: ");
            l.append(ip);
            l.append(" | Rota: ");
            l.append(path);
            l.append(" | Horário: ");
            l.append(timestamp);
            Some(l)
        },
        None => None,
    }
}

} // verus!
