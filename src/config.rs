//! The relational store's connection settings.
use vstd::prelude::*;
use vstd::string::*;
use crate::text::{decimal_string, decimal_text};

verus! {

/// The key-value connection string for the store, with the port in decimal.
pub fn config_str(host: &str, port: u16, user: &str, password: &str, dbname: &str) -> (r: String)
    ensures
        r@ == "host="@ + host@ + " port="@ + decimal_text(port as nat) + " user="@ + user@ + " password="@
            + password@ + " dbname="@ + dbname@,
{
    let mut r = String::from_str("host=");
    r.append(host);
    r.append(" port=");
    let p = decimal_string(port);
    r.append(p.as_str());
    r.append(" user=");
    r.append(user);
    r.append(" password=");
    r.append(password);
    r.append(" dbname=");
    r.append(dbname);
    r
}

} // verus!
