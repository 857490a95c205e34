use prustbowo::migrate::{
    create_migration_pair, current_time_parts, derived_migration_name, migrate_generate,
    migration_dir_name, timestamp_vec, TimeParts,
};
use prustbowo::orchestrate::{capture_docs, migrate_run_outcome, MigrateRunOutcome};

fn chars(s: &str) -> Vec<char> {
    s.chars().collect()
}

fn string_of(v: &[char]) -> String {
    v.iter().collect()
}

fn at(
    year: i32,
    month: u32,
    day: u32,
    hour: u32,
    minute: u32,
    second: u32,
) -> TimeParts {
    TimeParts { year, month, day, hour, minute, second }
}

#[test]
fn timestamp_is_padded_and_sortable() {
    assert_eq!(string_of(&timestamp_vec(&at(2024, 6, 1, 2, 3, 4))), "20240601020304");
    assert_eq!(string_of(&timestamp_vec(&at(987, 12, 31, 23, 59, 58))), "09871231235958");
    assert_eq!(string_of(&timestamp_vec(&at(-1, 1, 1, 0, 0, 0))), "-00010101000000");
    assert_eq!(string_of(&timestamp_vec(&at(10000, 1, 1, 0, 0, 0))), "+100000101000000");
}

#[test]
fn migration_pair_for_users_table() {
    let t = at(2024, 6, 1, 2, 3, 4);
    let name = chars("create_users_table");
    assert_eq!(
        string_of(&migration_dir_name(&t, &name)),
        "20240601020304_create_users_table"
    );
    let plan = create_migration_pair(&t, &name);
    assert_eq!(string_of(&plan.dir_name), "20240601020304_create_users_table");
    assert!(!plan.up_contents.is_empty());
    assert!(!plan.down_contents.is_empty());
    assert_ne!(string_of(&plan.up_contents), string_of(&plan.down_contents));
}

#[test]
fn batch_generation_covers_every_domain() {
    let domains = vec![chars("users"), chars("orders")];
    let names = migrate_generate(None, &domains);
    let names: Vec<String> = names.iter().map(|n| string_of(n)).collect();
    assert_eq!(names.len(), 2);
    assert!(names.contains(&"create_users_table".to_string()));
    assert!(names.contains(&"create_orders_table".to_string()));
}

#[test]
fn explicit_name_generates_single_pair() {
    let domains = vec![chars("users"), chars("orders")];
    let explicit = chars("add_index");
    let names = migrate_generate(Some(&explicit), &domains);
    assert_eq!(names.len(), 1);
    assert_eq!(string_of(&names[0]), "add_index");
}

#[test]
fn derived_name_wraps_domain() {
    assert_eq!(string_of(&derived_migration_name(&chars("users"))), "create_users_table");
}

#[test]
fn clock_fields_stay_in_range() {
    let t = current_time_parts();
    assert!((1..=12).contains(&t.month));
    assert!((1..=31).contains(&t.day));
    assert!(t.hour <= 23);
    assert!(t.minute <= 59);
    assert!(t.second <= 59);
}

#[test]
fn migrate_run_prefers_primary() {
    assert_eq!(migrate_run_outcome(true, true), MigrateRunOutcome::Primary);
    assert_eq!(migrate_run_outcome(true, false), MigrateRunOutcome::Primary);
    assert_eq!(migrate_run_outcome(false, true), MigrateRunOutcome::Fallback);
    assert_eq!(migrate_run_outcome(false, false), MigrateRunOutcome::Degraded);
}

#[test]
fn docs_capture_passes_output_through() {
    let doc = capture_docs(Some(chars("{\"openapi\":\"3.0.0\"}"))).unwrap();
    assert_eq!(string_of(&doc.body), "{\"openapi\":\"3.0.0\"}");
    assert!(capture_docs(None).is_none());
}
