use integrity_verification::keys::{parse_owner_and_mint, split_fields, trim_colons, FileKeysFetcher, IntegrityVerificationKeysFetcher};

fn fetcher(text: &str) -> FileKeysFetcher {
    let lines: Vec<String> = text.lines().map(String::from).collect();
    FileKeysFetcher::new(&lines)
}

const FILE: &str = "ignored,line\ngetAsset:\na,b,,c\n\ngetAssetsByOwner::\nowner1\ngetAsset:\nd\ngetTokenAccountsByOwnerAndMint:\n(o1;m1),((o2;m2))\n";

#[test]
fn key_file_blocks_are_read() {
    let f = fetcher(FILE);
    assert_eq!(f.get_verification_required_assets_keys().unwrap(), vec!["a", "b", "c", "d"]);
    assert_eq!(f.get_verification_required_owners_keys().unwrap(), vec!["owner1"]);
    assert!(f.get_verification_required_creators_keys().unwrap().is_empty());
    assert_eq!(f.categories(), vec!["getAsset", "getAssetsByOwner", "getTokenAccountsByOwnerAndMint"]);
    assert_eq!(f.num_categories(), 3);
}

#[test]
fn owner_and_mint_pairs_are_read() {
    let f = fetcher(FILE);
    let pairs = f.get_verification_required_tokens_by_owner_and_mint().unwrap();
    assert_eq!(pairs, vec![("o1".to_string(), "m1".to_string()), ("o2".to_string(), "m2".to_string())]);
    let bad = fetcher("getTokenAccountsByOwnerAndMint:\n(o1)\n");
    assert_eq!(bad.get_verification_required_tokens_by_owner_and_mint(), Err("(o1)".to_string()));
}

#[test]
fn pair_text_forms() {
    assert_eq!(parse_owner_and_mint("(a;b)"), Some(("a".to_string(), "b".to_string())));
    assert_eq!(parse_owner_and_mint("a;b;c"), Some(("a".to_string(), "b".to_string())));
    assert_eq!(parse_owner_and_mint("(;)"), Some((String::new(), String::new())));
    assert_eq!(parse_owner_and_mint("(ab)"), None);
}

#[test]
fn fields_and_colons() {
    assert_eq!(split_fields(",x,,y,"), vec!["x", "y"]);
    assert!(split_fields("").is_empty());
    assert_eq!(trim_colons("abc:::"), "abc");
    assert_eq!(trim_colons(":"), "");
}

#[test]
fn random_command_picks_category_then_key() {
    let f = fetcher(FILE);
    assert_eq!(f.get_random_command(0, 3), Some(("getAsset".to_string(), "d".to_string())));
    assert_eq!(f.get_random_command(1, 0), Some(("getAssetsByOwner".to_string(), "owner1".to_string())));
    assert_eq!(f.get_random_command(1, 1), None);
    assert_eq!(f.get_random_command(3, 0), None);
}
