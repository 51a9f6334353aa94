use omnia::builders::{
    resolve_ordering, select_columns, table_column, DeleteBuilder, Entity, Order, OrderSpec,
    SelectBuilder, UpdateBuilder,
};
use omnia::orm::{Join, JoinKind, SqlValue};

struct User;

impl Entity for User {
    type Filter = String;

    fn table() -> &'static str {
        "users"
    }

    fn projection() -> &'static [&'static str] {
        &["id", "name", "active"]
    }

    fn ordering() -> Vec<OrderSpec> {
        vec![OrderSpec { table: None, column: "id", order: Order::Asc }]
    }

    fn joins() -> Vec<Join<String>> {
        vec![]
    }

    fn column_specs() -> Vec<(&'static str, &'static str, &'static str)> {
        vec![]
    }
}

struct CommentWithAlias;

impl Entity for CommentWithAlias {
    type Filter = String;

    fn table() -> &'static str {
        "comments"
    }

    fn projection() -> &'static [&'static str] {
        &["id", "content", "author_name"]
    }

    fn ordering() -> Vec<OrderSpec> {
        vec![]
    }

    fn joins() -> Vec<Join<String>> {
        vec![Join::left("users", "comments.user_id = users.id".to_string())]
    }

    fn column_specs() -> Vec<(&'static str, &'static str, &'static str)> {
        vec![("author_name", "users", "name")]
    }
}

fn qualified(parts: &[omnia::builders::SelectColumn]) -> Vec<String> {
    parts
        .iter()
        .map(|c| match c.alias {
            Some(a) => format!("{}.{} AS {}", c.source.table, c.source.column, a),
            None => format!("{}.{}", c.source.table, c.source.column),
        })
        .collect()
}

#[test]
fn select_basic_columns() {
    let parts = SelectBuilder::<User>::new().into_parts();
    assert_eq!(qualified(&parts.columns), vec!["users.id", "users.name", "users.active"]);
    assert_eq!(parts.table, "users");
    assert!(parts.filters.is_empty());
    assert_eq!(parts.limit, None);
    assert_eq!(parts.order.len(), 1);
    assert_eq!(parts.order[0].0.table, "users");
    assert_eq!(parts.order[0].1, Order::Asc);
}

#[test]
fn select_parts_with_ordering_and_limits() {
    let parts = SelectBuilder::<User>::new()
        .where_("active = true".to_string())
        .where_("id > 100".to_string())
        .order_by(Some("users"), "id")
        .order_by_desc(None, "name")
        .limit(10)
        .offset(5)
        .into_parts();
    assert_eq!(parts.filters, vec!["active = true".to_string(), "id > 100".to_string()]);
    assert_eq!(parts.limit, Some(10));
    assert_eq!(parts.offset, Some(5));
    let order: Vec<(String, Order)> = parts
        .order
        .iter()
        .map(|(c, o)| (format!("{}.{}", c.table, c.column), *o))
        .collect();
    assert_eq!(
        order,
        vec![
            ("users.id".to_string(), Order::Asc),
            ("users.id".to_string(), Order::Asc),
            ("users.name".to_string(), Order::Desc)
        ]
    );
}

#[test]
fn select_parts_with_column_aliasing() {
    let parts = SelectBuilder::<CommentWithAlias>::new().into_parts();
    assert_eq!(
        qualified(&parts.columns),
        vec!["comments.id", "comments.content", "users.name AS author_name"]
    );
    assert_eq!(parts.joins.len(), 1);
    assert_eq!(parts.joins[0].table(), "users");
    assert_eq!(parts.joins[0].kind(), JoinKind::Left);
}

#[test]
fn select_parts_with_ad_hoc_join() {
    let parts = SelectBuilder::<User>::new()
        .join(Join::right("posts", "posts.author_id = users.id".to_string()).alias("p"))
        .into_parts();
    assert_eq!(parts.joins.len(), 1);
    assert_eq!(parts.joins[0].alias_name(), Some("p"));
    assert_eq!(parts.joins[0].kind(), JoinKind::Right);
}

#[test]
fn last_column_spec_wins() {
    let cols = select_columns(
        "t",
        &["a", "b"],
        &[("a", "x", "first"), ("a", "y", "second"), ("c", "z", "other")],
    );
    assert_eq!(qualified(&cols), vec!["y.second AS a", "t.b"]);
}

#[test]
fn ordering_defaults_to_entity_table() {
    let order = resolve_ordering(
        "posts",
        vec![
            OrderSpec { table: None, column: "created", order: Order::Desc },
            OrderSpec { table: Some("users"), column: "name", order: Order::Asc },
        ],
    );
    assert_eq!(order[0].0.table, "posts");
    assert_eq!(order[0].1, Order::Desc);
    assert_eq!(order[1].0.table, "users");
    let c = table_column("a", "b");
    assert_eq!((c.table, c.column), ("a", "b"));
}

#[test]
fn update_basic_parts() {
    let (table, sets, filters, returning) = UpdateBuilder::<User>::new()
        .set("name", SqlValue::Text(Some("x".to_string())))
        .set("active", SqlValue::Bool(Some(false)))
        .where_("id = 1".to_string())
        .returning("id")
        .returning("name")
        .into_parts();
    assert_eq!(table, "users");
    assert_eq!(sets.iter().map(|(c, _)| *c).collect::<Vec<_>>(), vec!["name", "active"]);
    assert_eq!(filters, vec!["id = 1".to_string()]);
    assert_eq!(returning, vec!["id", "name"]);
}

#[test]
fn delete_parts() {
    let (table, filters, returning) =
        DeleteBuilder::<User>::new().where_("id = 1".to_string()).returning("id").into_parts();
    assert_eq!(table, "users");
    assert_eq!(filters, vec!["id = 1".to_string()]);
    assert_eq!(returning, vec!["id"]);
    let (_, filters, returning) = DeleteBuilder::<User>::new().into_parts();
    assert!(filters.is_empty() && returning.is_empty());
}
