//! Embedded template store.
//!
//! The two template trees — one for a fresh project, one for a domain
//! module — are baked into the library as in-memory data, so instantiation
//! needs no template files on disk.  The project's route file carries both
//! anchor markers, which makes a freshly generated project a valid target
//! for domain injection.

use vstd::prelude::*;

use crate::inject::{import_marker_vec, route_file_valid, routes_marker_vec};
use crate::subst::{contains_sub, match_at};
use crate::text::{chars_of, push_all};
use crate::tree::{crate_ident_token, crate_ident_token_vec, domain_name_token,
    domain_name_token_vec, TemplateEntry};

verus! {

/// Contents of the generated route-aggregation file, with both anchors.
fn route_template_contents() -> (r: Vec<char>)
    ensures
        route_file_valid(r@),
{
    let mut c = chars_of(
        "use axum::{routing::get, Router};\nuse utoipa::OpenApi;\nuse utoipa_swagger_ui::SwaggerUi;\n\n",
    );
    let ghost a = c@.len() as int;
    let m1 = import_marker_vec();
    push_all(&mut c, &m1);
    let mid = chars_of(
        "\n\n#[derive(OpenApi)]\n#[openapi(\n    paths(),\n    components(schemas()),\n    tags((name = \"api\", description = \"API endpoints\"))\n)]\npub struct ApiDoc;\n\npub fn app_router(router: Router) -> Router {\n    let mut router = router;\n    ",
    );
    push_all(&mut c, &mid);
    let ghost b = c@.len() as int;
    let m2 = routes_marker_vec();
    push_all(&mut c, &m2);
    let tail = chars_of(
        "\n    router = router.merge(SwaggerUi::new(\"/docs\").url(\"/api-docs/openapi.json\", ApiDoc::openapi()));\n    router\n}\n",
    );
    push_all(&mut c, &tail);
    proof {
        assert(c@.subrange(a, a + m1@.len() as int) =~= m1@);
        assert(match_at(c@, m1@, a));
        assert(c@.subrange(b, b + m2@.len() as int) =~= m2@);
        assert(match_at(c@, m2@, b));
    }
    c
}

/// Contents of the generated server entry point.
fn main_template_contents() -> (r: Vec<char>)
    ensures
        contains_sub(r@, crate_ident_token()),
{
    let mut c = chars_of(
        "use anyhow::Result;\nuse axum::Router;\nuse tokio::net::TcpListener;\n\nuse ",
    );
    let ghost a = c@.len() as int;
    let tok = crate_ident_token_vec();
    push_all(&mut c, &tok);
    let tail = chars_of(
        "::app::route::app_router;\n\n#[tokio::main]\nasync fn main() -> Result<()> {\n    let router = app_router(Router::new());\n    let listener = TcpListener::bind(\"0.0.0.0:8080\").await?;\n    axum::serve(listener, router).await?;\n    Ok(())\n}\n",
    );
    push_all(&mut c, &tail);
    proof {
        assert(c@.subrange(a, a + tok@.len() as int) =~= tok@);
        assert(match_at(c@, tok@, a));
    }
    c
}

/// Contents of the generated migration-runner entry point.
fn migrate_template_contents() -> (r: Vec<char>)
    ensures
        r@.len() > 0,
{
    let mut c = chars_of("use anyhow::Result;\nuse diesel::Connection;\nuse diesel::pg::PgConnection;\nuse diesel_migrations::{embed_migrations, EmbeddedMigrations, MigrationHarness};\n\npub const MIGRATIONS: EmbeddedMigrations = embed_migrations!(\"db/migrations\");\n\n");
    let tail = chars_of("fn main() -> Result<()> {\n    let database_url = dotenvy::var(\"DATABASE_URL\")?;\n    let mut conn = PgConnection::establish(&database_url)?;\n    conn.run_pending_migrations(MIGRATIONS).map_err(|e| anyhow::anyhow!(e))?;\n    println!(\"migrations applied\");\n    Ok(())\n");
    push_all(&mut c, &tail);
    let end = chars_of("}\n");
    push_all(&mut c, &end);
    proof {
        reveal_strlit("}\n");
    }
    c
}

/// Contents of the generated documentation exporter.
fn export_template_contents() -> (r: Vec<char>)
    ensures
        contains_sub(r@, crate_ident_token()),
{
    let mut c = chars_of("use ");
    let ghost a = c@.len() as int;
    let tok = crate_ident_token_vec();
    push_all(&mut c, &tok);
    let tail = chars_of(
        "::app::route::ApiDoc;\nuse utoipa::OpenApi;\n\nfn main() {\n    let openapi = ApiDoc::openapi();\n    println!(\"{}\", openapi.to_json().unwrap());\n}\n",
    );
    push_all(&mut c, &tail);
    proof {
        assert(c@.subrange(a, a + tok@.len() as int) =~= tok@);
        assert(match_at(c@, tok@, a));
    }
    c
}

/// Contents of the generated domain handler.
fn handler_template_contents() -> (r: Vec<char>)
    ensures
        contains_sub(r@, domain_name_token()),
{
    let mut c = chars_of(
        "use axum::{routing::get, Json, Router};\nuse serde_json::json;\n\n#[utoipa::path(get, path = \"/__DOMAIN_NAME__/ping\", tag = \"__DOMAIN_NAME__\")]\nasync fn ping() -> Json<serde_json::Value> {\n    Json(json!({\"ok\": true}))\n}\n\npub fn register_",
    );
    let ghost a = c@.len() as int;
    let tok = domain_name_token_vec();
    push_all(&mut c, &tok);
    let tail = chars_of(
        "_routes(router: Router) -> Router {\n    router.route(\"/__DOMAIN_NAME__/ping\", get(ping))\n}\n",
    );
    push_all(&mut c, &tail);
    proof {
        assert(c@.subrange(a, a + tok@.len() as int) =~= tok@);
        assert(match_at(c@, tok@, a));
    }
    c
}

/// The project template tree.
///
/// The route file is a valid injection target, and the two entry points
/// that name the generated crate carry the crate-ident placeholder.
pub fn project_template() -> (r: Vec<TemplateEntry>)
    ensures
        r@.len() == 4,
        r@[0].path@ == "src/app/route.rs"@,
        route_file_valid(r@[0].contents@),
        r@[1].path@ == "cmd/main.rs"@,
        contains_sub(r@[1].contents@, crate_ident_token()),
        r@[2].path@ == "cmd/migrate.rs"@,
        r@[3].path@ == "cmd/export_openapi.rs"@,
        contains_sub(r@[3].contents@, crate_ident_token()),
{
    let mut tree: Vec<TemplateEntry> = Vec::new();
    tree.push(
        TemplateEntry { path: chars_of("src/app/route.rs"), contents: route_template_contents() },
    );
    tree.push(TemplateEntry { path: chars_of("cmd/main.rs"), contents: main_template_contents() });
    tree.push(
        TemplateEntry { path: chars_of("cmd/migrate.rs"), contents: migrate_template_contents() },
    );
    tree.push(
        TemplateEntry {
            path: chars_of("cmd/export_openapi.rs"),
            contents: export_template_contents(),
        },
    );
    tree
}

/// The domain template tree: one handler file carrying the domain-name
/// placeholder.
pub fn domain_template() -> (r: Vec<TemplateEntry>)
    ensures
        r@.len() == 1,
        r@[0].path@ == "handler.rs"@,
        contains_sub(r@[0].contents@, domain_name_token()),
{
    let mut tree: Vec<TemplateEntry> = Vec::new();
    tree.push(
        TemplateEntry { path: chars_of("handler.rs"), contents: handler_template_contents() },
    );
    tree
}

} // verus!
