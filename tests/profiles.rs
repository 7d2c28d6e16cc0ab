use relay::profiles::{
    candidate_profile_id, decimal_text, new_profile_base_id, profile_base_id, profile_name, slugify, IdSearch,
};

#[test]
fn slugs() {
    assert_eq!(slugify("My Work Profile"), "my-work-profile");
    assert_eq!(slugify("  --Hello,  World!! "), "hello-world");
    assert_eq!(slugify("Ünïcode"), "n-code");
    assert_eq!(slugify("***"), "");
    assert_eq!(slugify("A1_b2"), "a1-b2");
}

#[test]
fn candidates() {
    assert_eq!(candidate_profile_id("work", 1), "work");
    assert_eq!(candidate_profile_id("work", 2), "work-2");
    assert_eq!(candidate_profile_id("work", 10), "work-10");
    assert_eq!(decimal_text(0), "0");
    assert_eq!(decimal_text(18446744073709551615), "18446744073709551615");
}

#[test]
fn base_ids() {
    assert_eq!(profile_base_id("Team A", "tok"), "team-a");
    assert_eq!(profile_base_id("!!", "tok"), "profile-tok");
    let fresh = new_profile_base_id("???");
    assert!(fresh.starts_with("profile-"));
    assert_eq!(fresh.len(), 40);
    assert_eq!(new_profile_base_id("Dev"), "dev");
}

#[test]
fn profile_names_and_id_search() {
    assert_eq!(profile_name("  Work \t"), Ok("Work".to_string()));
    assert_eq!(profile_name(" \u{3000} "), Err("Profile name is required".to_string()));
    let mut search = IdSearch::new("work".to_string());
    assert_eq!(search.candidate(), "work");
    assert!(search.taken());
    assert_eq!(search.candidate(), "work-2");
}
