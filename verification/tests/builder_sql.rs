use rudbman_app::builder_sql::{
    generate, names_to_spell, table_parts, unique_alias, BuilderQuery, BuilderTable, Join,
    JoinKind, SortDir, SpelledTable,
};

/// How a product writes a name.
struct Dialect {
    quote: char,
    /// Which of the two cases a bare name may be written in.
    upper: bool,
    lower: bool,
}

const H2: Dialect = Dialect { quote: '"', upper: true, lower: false };
const ORACLE: Dialect = Dialect { quote: '"', upper: true, lower: false };
const MYSQL: Dialect = Dialect { quote: '`', upper: true, lower: true };
const POSTGRES: Dialect = Dialect { quote: '"', upper: false, lower: true };

impl Dialect {
    fn quote_ident(&self, name: &str) -> String {
        let plain = name.chars().all(|c| {
            c == '_'
                || c.is_ascii_digit()
                || (self.upper && c.is_ascii_uppercase())
                || (self.lower && c.is_ascii_lowercase())
        });
        if plain && !name.eq_ignore_ascii_case("select") {
            name.to_string()
        } else {
            format!("{}{name}{}", self.quote, self.quote)
        }
    }

    fn qualify(&self, parts: &[String]) -> String {
        let spelled: Vec<String> = parts.iter().map(|part| self.quote_ident(part)).collect();
        spelled.join(".")
    }
}

fn statement(query: &BuilderQuery, dialect: &Dialect) -> String {
    let names: Vec<SpelledTable> = names_to_spell(query)
        .iter()
        .map(|table| SpelledTable {
            reference: dialect.qualify(&table.reference),
            alias: dialect.quote_ident(&table.alias),
            columns: table
                .columns
                .iter()
                .map(|column| dialect.qualify(&[table.alias.clone(), column.clone()]))
                .collect(),
        })
        .collect();
    generate(query, &names)
}

fn table_ref(
    dialect: &Dialect,
    catalog: Option<&str>,
    schema: Option<&str>,
    name: &str,
) -> String {
    dialect.qualify(&table_parts(catalog, schema, name))
}

/// A table of `columns` in the `APP` schema.
fn table(name: &str, alias: &str, columns: &[&str]) -> BuilderTable {
    BuilderTable {
        catalog: None,
        schema: Some("APP".to_string()),
        name: name.to_string(),
        alias: alias.to_string(),
        columns: columns.iter().map(|column| column.to_string()).collect(),
    }
}

fn three() -> Vec<BuilderTable> {
    vec![
        table("PERSON", "PERSON", &["ID", "TEAM_ID", "NAME"]),
        table("TEAM", "TEAM", &["ID", "NAME", "OFFICE_ID"]),
        table("OFFICE", "OFFICE", &["ID", "CITY"]),
    ]
}

fn join(from: (usize, usize), to: (usize, usize), kind: JoinKind) -> Join {
    Join { from, to, kind }
}

#[test]
fn three_tables_two_joins_and_every_clause() {
    let query = BuilderQuery {
        tables: three(),
        // Drawn the other way round on purpose: the edge says which columns
        // match, not which side of the `ON` they go on.
        joins: vec![
            join((0, 1), (1, 0), JoinKind::Inner),
            join((2, 0), (1, 2), JoinKind::Left),
        ],
        selected: vec![(0, 2), (1, 1), (2, 1)],
        where_clauses: vec![
            "PERSON.NAME LIKE 'A%'".to_string(),
            "  ".to_string(),
            "OFFICE.CITY <> 'Seoul'".to_string(),
        ],
        group_by: vec![(1, 1)],
        order_by: vec![((2, 1), SortDir::Desc), ((0, 2), SortDir::Asc)],
    };

    assert_eq!(
        statement(&query, &H2),
        "SELECT PERSON.NAME, TEAM.NAME, OFFICE.CITY\n\
         FROM APP.PERSON\n\
         \x20 INNER JOIN APP.TEAM ON PERSON.TEAM_ID = TEAM.ID\n\
         \x20 LEFT JOIN APP.OFFICE ON TEAM.OFFICE_ID = OFFICE.ID\n\
         WHERE PERSON.NAME LIKE 'A%'\n\
         \x20 AND OFFICE.CITY <> 'Seoul'\n\
         GROUP BY TEAM.NAME\n\
         ORDER BY OFFICE.CITY DESC, PERSON.NAME ASC"
    );
}

#[test]
fn a_composite_key_is_one_join_with_two_terms() {
    let query = BuilderQuery {
        tables: vec![
            table("PARENT", "PARENT", &["A", "B"]),
            table("CHILD", "CHILD", &["A_ID", "B_ID"]),
        ],
        joins: vec![
            join((0, 0), (1, 0), JoinKind::Full),
            join((0, 1), (1, 1), JoinKind::Full),
        ],
        ..BuilderQuery::default()
    };

    assert_eq!(
        statement(&query, &H2),
        "SELECT *\n\
         FROM APP.PARENT\n\
         \x20 FULL JOIN APP.CHILD ON PARENT.A = CHILD.A_ID AND PARENT.B = CHILD.B_ID"
    );
}

#[test]
fn an_unjoined_table_is_a_comma_and_no_selection_is_a_star() {
    let query = BuilderQuery {
        tables: vec![
            table("PERSON", "PERSON", &["ID"]),
            table("TEAM", "TEAM", &["ID"]),
            table("OFFICE", "OFFICE", &["ID"]),
        ],
        joins: vec![join((1, 0), (2, 0), JoinKind::Inner)],
        ..BuilderQuery::default()
    };

    assert_eq!(
        statement(&query, &H2),
        "SELECT *\n\
         FROM APP.PERSON,\n\
         \x20 APP.TEAM\n\
         \x20 INNER JOIN APP.OFFICE ON TEAM.ID = OFFICE.ID"
    );
}

#[test]
fn a_self_join_writes_the_alias_out() {
    let taken = vec!["PERSON".to_string()];
    assert_eq!(unique_alias("PERSON", &[]), "PERSON");
    assert_eq!(unique_alias("PERSON", &taken), "PERSON_2");
    assert_eq!(
        unique_alias("PERSON", &[taken[0].clone(), "PERSON_2".to_string()]),
        "PERSON_3"
    );

    let query = BuilderQuery {
        tables: vec![
            table("PERSON", "PERSON", &["ID", "MANAGER_ID"]),
            table("PERSON", "PERSON_2", &["ID", "MANAGER_ID"]),
        ],
        joins: vec![join((0, 1), (1, 0), JoinKind::Left)],
        selected: vec![(0, 0), (1, 0)],
        ..BuilderQuery::default()
    };

    assert_eq!(
        statement(&query, &H2),
        "SELECT PERSON.ID, PERSON_2.ID\n\
         FROM APP.PERSON\n\
         \x20 LEFT JOIN APP.PERSON PERSON_2 ON PERSON.MANAGER_ID = PERSON_2.ID"
    );
}

#[test]
fn names_are_quoted_only_where_they_have_to_be() {
    let query = BuilderQuery {
        tables: vec![
            BuilderTable {
                catalog: None,
                schema: Some("dbo".to_string()),
                name: "Order Details".to_string(),
                alias: "Order Details".to_string(),
                columns: vec!["select".to_string(), "Quantity".to_string()],
            },
            BuilderTable {
                catalog: Some("shop".to_string()),
                schema: None,
                name: "orders".to_string(),
                alias: "o".to_string(),
                columns: vec!["id".to_string()],
            },
        ],
        joins: vec![join((0, 0), (1, 0), JoinKind::Inner)],
        selected: vec![(0, 1)],
        ..BuilderQuery::default()
    };

    // MySQL: back ticks, case preserved, and the catalogue standing in for the
    // schema on the second table.
    assert_eq!(
        statement(&query, &MYSQL),
        "SELECT `Order Details`.Quantity\n\
         FROM dbo.`Order Details`\n\
         \x20 INNER JOIN shop.orders o ON `Order Details`.`select` = o.id"
    );

    // PostgreSQL folds down, so every capital has to be quoted, and the quote
    // character is the standard one.
    assert_eq!(
        statement(&query, &POSTGRES),
        "SELECT \"Order Details\".\"Quantity\"\n\
         FROM dbo.\"Order Details\"\n\
         \x20 INNER JOIN shop.orders o ON \"Order Details\".\"select\" = o.id"
    );
}

#[test]
fn a_table_alias_is_never_introduced_with_as() {
    let query = BuilderQuery {
        tables: vec![table("PERSON", "P", &["ID"]), table("TEAM", "T", &["ID"])],
        joins: vec![join((0, 0), (1, 0), JoinKind::Right)],
        ..BuilderQuery::default()
    };

    let sql = statement(&query, &ORACLE);
    assert_eq!(
        sql,
        "SELECT *\n\
         FROM APP.PERSON P\n\
         \x20 RIGHT JOIN APP.TEAM T ON P.ID = T.ID"
    );
    assert!(!sql.contains(" AS "), "{sql}");
    assert!(!sql.ends_with(';'), "{sql}");
}

#[test]
fn a_table_reference_prefers_the_schema_and_falls_back_to_the_catalogue() {
    assert_eq!(table_ref(&H2, None, Some("APP"), "PERSON"), "APP.PERSON");
    assert_eq!(table_ref(&H2, Some("SHOP"), Some("APP"), "PERSON"), "APP.PERSON");
    assert_eq!(table_ref(&H2, Some("SHOP"), None, "PERSON"), "SHOP.PERSON");
    assert_eq!(table_ref(&H2, None, None, "PERSON"), "PERSON");
    // Empty is absent, not a part to be quoted into a leading dot.
    assert_eq!(table_ref(&H2, Some(""), Some(""), "PERSON"), "PERSON");
    // And an ordinary name is left exactly as it was.
    assert_eq!(table_ref(&MYSQL, None, Some("shop"), "orders"), "shop.orders");
}

#[test]
fn a_query_with_no_tables_has_no_statement() {
    assert_eq!(statement(&BuilderQuery::default(), &H2), "");
}

#[test]
fn a_place_that_is_not_there_is_passed_over() {
    let query = BuilderQuery {
        tables: three(),
        joins: vec![join((0, 9), (1, 0), JoinKind::Inner)],
        selected: vec![(0, 2), (7, 0), (1, 9)],
        where_clauses: Vec::new(),
        group_by: vec![(9, 9)],
        order_by: vec![((9, 9), SortDir::Asc)],
    };
    assert_eq!(
        statement(&query, &H2),
        "SELECT PERSON.NAME\nFROM APP.PERSON,\n  APP.TEAM,\n  APP.OFFICE"
    );
}

#[test]
fn the_kinds_and_the_directions_have_their_keywords() {
    let words: Vec<&str> = JoinKind::all().iter().map(|kind| kind.keyword()).collect();
    assert_eq!(words, ["INNER", "LEFT", "RIGHT", "FULL"]);
    assert_eq!(SortDir::Asc.keyword(), "ASC");
    assert_eq!(SortDir::Desc.keyword(), "DESC");
}

#[test]
fn every_table_has_a_line_of_its_own() {
    let query = BuilderQuery {
        tables: three(),
        joins: vec![
            join((0, 1), (2, 0), JoinKind::Left),
            join((2, 1), (0, 2), JoinKind::Inner),
        ],
        ..BuilderQuery::default()
    };
    let sql = statement(&query, &H2);
    let lines: Vec<&str> = sql.lines().collect();
    assert_eq!(
        lines,
        [
            "SELECT *",
            "FROM APP.PERSON,",
            "  APP.TEAM",
            "  LEFT JOIN APP.OFFICE ON PERSON.TEAM_ID = OFFICE.ID AND PERSON.NAME = OFFICE.CITY",
        ]
    );
}

#[test]
fn an_edge_turned_round_is_the_same_edge() {
    let drawn = |joins: Vec<Join>| BuilderQuery {
        tables: three(),
        joins,
        ..BuilderQuery::default()
    };
    let forth = drawn(vec![
        join((0, 1), (1, 0), JoinKind::Right),
        join((1, 2), (2, 0), JoinKind::Full),
    ]);
    let back = drawn(vec![
        join((1, 0), (0, 1), JoinKind::Right),
        join((2, 0), (1, 2), JoinKind::Full),
    ]);
    assert_eq!(statement(&forth, &POSTGRES), statement(&back, &POSTGRES));
}

#[test]
fn a_blank_condition_changes_nothing() {
    let said = |clauses: &[&str]| {
        let query = BuilderQuery {
            tables: three(),
            where_clauses: clauses.iter().map(|clause| clause.to_string()).collect(),
            ..BuilderQuery::default()
        };
        statement(&query, &H2)
    };
    let plain = said(&["ID > 1", "ID < 9"]);
    assert_eq!(said(&["", "ID > 1", "ID < 9"]), plain);
    assert_eq!(said(&["ID > 1", " \t ", "ID < 9"]), plain);
    assert_eq!(said(&["ID > 1", "ID < 9", "\n"]), plain);
}

#[test]
fn a_query_tidied_up_is_the_same_statement() {
    let untidy = BuilderQuery {
        tables: three(),
        joins: vec![join((0, 9), (1, 0), JoinKind::Left), join((0, 1), (1, 0), JoinKind::Inner)],
        selected: vec![(7, 0), (0, 2), (1, 9)],
        where_clauses: vec!["  ID > 1 ".to_string(), " ".to_string(), "ID < 9\n".to_string()],
        group_by: vec![(0, 2), (9, 9)],
        order_by: vec![((9, 9), SortDir::Asc), ((0, 2), SortDir::Desc)],
    };
    let tidy = BuilderQuery {
        tables: three(),
        joins: untidy.joins.clone(),
        selected: vec![(0, 2)],
        where_clauses: vec!["ID > 1".to_string(), "ID < 9".to_string()],
        group_by: vec![(0, 2)],
        order_by: vec![((0, 2), SortDir::Desc)],
    };
    assert_eq!(statement(&untidy, &H2), statement(&tidy, &H2));
    assert_eq!(
        statement(&tidy, &H2),
        "SELECT PERSON.NAME\nFROM APP.PERSON\n  LEFT JOIN APP.TEAM ON PERSON.TEAM_ID = TEAM.ID,\n  \
         APP.OFFICE\nWHERE ID > 1\n  AND ID < 9\nGROUP BY PERSON.NAME\nORDER BY PERSON.NAME DESC"
    );
}
