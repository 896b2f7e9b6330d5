//! The configuration commands: getting and setting one value.
use vstd::prelude::*;
use crate::config::{field_kind, is_default_config, key_parts, lookup, same_field, set_refusal, stored_text, Config};
use crate::laws::law_sections_rejoin;
use crate::model::own;
use crate::text::push_str;

verus! {

/// The message for a key that names no value.
pub open spec fn unknown_key_message(key: Seq<char>) -> Seq<char> {
    "未知的配置项 '"@ + key + "', 格式为 'section.field'（如 general.default_editor）"@
}

/// `note config get`: the line `key = value`, or the message for an
/// unknown key.
pub fn get(key: &str, cfg: &Config) -> (r: Result<String, String>)
    ensures
        match lookup(*cfg, key@) {
            Some(v) => r matches Ok(l) && l@ == key@ + " = "@ + v,
            None => r matches Err(m) && m@ == unknown_key_message(key@),
        },
{
    match cfg.get_value(key) {
        Some(v) => {
            let mut l = own(key);
            push_str(&mut l, " = ");
            push_str(&mut l, v.as_str());
            Ok(l)
        },
        None => {
            let mut m = own("未知的配置项 '");
            push_str(&mut m, key);
            push_str(&mut m, "', 格式为 'section.field'（如 general.default_editor）");
            Err(m)
        },
    }
}

/// `note config set`: sets the value (see `Config::set_value`) and gives the
/// line `key = value` to show once saved, or the reason it was refused.
pub fn set(key: &str, value: &str, cfg: &mut Config) -> (r: Result<String, String>)
    ensures
        match set_refusal(key@, value@) {
            None => r matches Ok(l) && l@ == key@ + " = "@ + value@ && lookup(*final(cfg), key@) == Some(
                stored_text(field_kind(key_parts(key@)[0], key_parts(key@)[1])->0, value@),
            ) && forall|k: Seq<char>| k != key@ ==> #[trigger] lookup(*final(cfg), k) == lookup(*old(cfg), k),
            Some(m) => r matches Err(e) && e@ == m && *final(cfg) == *old(cfg),
        },
{
    match cfg.set_value(key, value) {
        Ok(()) => {
            proof {
                let pkey = key_parts(key@);
                assert forall|k: Seq<char>| k != key@ implies #[trigger] lookup(*cfg, k) == lookup(*old(cfg), k) by {
                    let pk = key_parts(k);
                    if pk.len() == 2 && same_field(pk[0], pk[1], pkey[0], pkey[1]) {
                        assert(pk =~= pkey);
                        law_sections_rejoin(k, seq!['.']);
                        law_sections_rejoin(key@, seq!['.']);
                    }
                }
            }
            let mut l = own(key);
            push_str(&mut l, " = ");
            push_str(&mut l, value);
            Ok(l)
        },
        Err(e) => Err(e),
    }
}

/// The configuration to use: the file's when it was read and parsed
/// (`loaded`), the defaults otherwise.
pub fn load_or_default(loaded: Option<Config>) -> (c: Config)
    ensures
        match loaded {
            Some(l) => c == l,
            None => is_default_config(c),
        },
{
    match loaded {
        Some(c) => c,
        None => Config::default(),
    }
}

} // verus!
