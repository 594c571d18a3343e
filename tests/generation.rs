use openapi_dry_validation_generator::ast_builder::reference_db::ReferenceDatabase;
use openapi_dry_validation_generator::document::{
    ArraySchema, Components, Document, IntegerSchema, Named, NamedPathItem, ObjectSchema,
    OperationObject, ParameterFormat, ParameterLocation, ParameterObject, PathItemObject,
    ReferenceOr, SchemaObject, StringSchema,
};
use openapi_dry_validation_generator::generate_dry_validation;

fn integer(minimum: Option<i64>, maximum: Option<i64>) -> SchemaObject {
    SchemaObject::Integer(IntegerSchema {
        minimum,
        maximum,
        exclusive_minimum: false,
        exclusive_maximum: false,
    })
}

fn num() -> SchemaObject {
    SchemaObject::Number
}

fn st(min_length: Option<usize>, max_length: Option<usize>) -> SchemaObject {
    SchemaObject::String(StringSchema { min_length, max_length })
}

fn boolean() -> SchemaObject {
    SchemaObject::Boolean
}

fn any() -> SchemaObject {
    SchemaObject::Any
}

fn arr(min_items: Option<usize>, max_items: Option<usize>, items: Option<SchemaObject>) -> SchemaObject {
    SchemaObject::Array(ArraySchema {
        min_items,
        max_items,
        items: items.map(|s| Box::new(ReferenceOr::Item(s))),
    })
}

fn obj(properties: Vec<(&str, SchemaObject)>, required: &[&str]) -> SchemaObject {
    SchemaObject::Object(ObjectSchema {
        properties: properties
            .into_iter()
            .map(|(name, schema)| Named { name: name.to_string(), value: ReferenceOr::Item(schema) })
            .collect(),
        required: required.iter().map(|r| r.to_string()).collect(),
    })
}

fn q(name: &str, required: bool, schema: SchemaObject) -> ReferenceOr<ParameterObject> {
    ReferenceOr::Item(ParameterObject {
        location: ParameterLocation::Query,
        name: name.to_string(),
        required,
        format: ParameterFormat::Schema(ReferenceOr::Item(schema)),
    })
}

fn operation(id: &str, parameters: Vec<ReferenceOr<ParameterObject>>) -> OperationObject {
    OperationObject { operation_id: Some(id.to_string()), parameters }
}

fn only_get(op: OperationObject) -> PathItemObject {
    PathItemObject { get: Some(op), post: None, patch: None, put: None, delete: None }
}

fn document(paths: Vec<(&str, PathItemObject)>) -> Document {
    Document {
        paths: paths
            .into_iter()
            .map(|(path, item)| NamedPathItem { path: path.to_string(), item: ReferenceOr::Item(item) })
            .collect(),
        components: Components { parameters: vec![], schemas: vec![] },
    }
}

fn lines(ls: &[&str]) -> String {
    let mut out = String::new();
    for l in ls {
        out.push_str(l);
        out.push('\n');
    }
    out
}

fn generate(doc: &Document) -> String {
    let db = ReferenceDatabase::new();
    match generate_dry_validation(doc, &db) {
        Ok(g) => g.code,
        Err(_) => panic!("generation was interrupted"),
    }
}

fn check_parameters(params: Vec<ReferenceOr<ParameterObject>>, expected: &[&str]) {
    let doc = document(vec![("/test/example", only_get(operation("testExample", params)))]);
    assert_eq!(generate(&doc), lines(expected));
}

fn check_operation_id(id: &str, expected: &[&str]) {
    let doc = document(vec![("/test/example", only_get(operation(id, vec![])))]);
    assert_eq!(generate(&doc), lines(expected));
}

#[test]
fn query_defined_name_is_pascal() {
    check_operation_id("testExample", &["TestExample = Dry::Schema::Params do", "end"]);
    check_operation_id("test-example", &["TestExample = Dry::Schema::Params do", "end"]);
    check_operation_id("test_example", &["TestExample = Dry::Schema::Params do", "end"]);
}

#[test]
fn operation_id_test_defined_name_is_pascal() {
    check_operation_id("testExample", &["TestExample = Dry::Schema::Params do", "end"]);
    check_operation_id("test-example", &["TestExample = Dry::Schema::Params do", "end"]);
    check_operation_id("test_example", &["TestExample = Dry::Schema::Params do", "end"]);
}

#[test]
fn operations() {
    let item = PathItemObject {
        get: Some(operation("get-test", vec![q("get_key", false, st(None, None))])),
        post: Some(operation("post-test", vec![q("post_key", false, integer(None, None))])),
        patch: Some(operation("patch-test", vec![q("patch_key", false, boolean())])),
        put: Some(operation("put-test", vec![q("put_key", false, st(None, None))])),
        delete: Some(operation("delete-test", vec![q("delete_key", false, integer(None, None))])),
    };
    let doc = document(vec![("/test/example", item)]);
    assert_eq!(
        generate(&doc),
        lines(&[
            "GetTest = Dry::Schema::Params do",
            "  optional(:get_key).value(:string)",
            "end",
            "PostTest = Dry::Schema::Params do",
            "  optional(:post_key).value(:integer)",
            "end",
            "PatchTest = Dry::Schema::Params do",
            "  optional(:patch_key).value(:boolean)",
            "end",
            "PutTest = Dry::Schema::Params do",
            "  optional(:put_key).value(:string)",
            "end",
            "DeleteTest = Dry::Schema::Params do",
            "  optional(:delete_key).value(:integer)",
            "end",
        ])
    );
}

#[test]
fn query_query_types() {
    check_parameters(
        vec![
        q("string_key", false, st(None, None)),
        q("integer_key", false, integer(None, None)),
        q("boolean_key", false, boolean()),
        q("array_key", false, arr(None, None, None)),
        q("object_key", false, obj(vec![], &[])),
        ],
        &[
            "TestExample = Dry::Schema::Params do",
            "  optional(:string_key).value(:string)",
            "  optional(:integer_key).value(:integer)",
            "  optional(:boolean_key).value(:boolean)",
            "  optional(:array_key).value(:array)",
            "  optional(:object_key).value(:hash)",
            "end",
        ],
    );
}

#[test]
fn query_query_required_and_optional() {
    check_parameters(
        vec![
        q("required_integer_key", true, integer(None, None)),
        q("optional_integer_key", false, integer(None, None)),
        q("required_string_key", true, st(None, None)),
        q("optional_string_key", false, st(None, None)),
        q("required_boolean_key", true, boolean()),
        q("optional_boolean_key", false, boolean()),
        q("required_array_key", true, arr(None, None, None)),
        q("optional_array_key", false, arr(None, None, None)),
        q("required_object_key", true, obj(vec![], &[])),
        q("optional_object_key", false, obj(vec![], &[])),
        ],
        &[
            "TestExample = Dry::Schema::Params do",
            "  required(:required_integer_key).value(:integer)",
            "  optional(:optional_integer_key).value(:integer)",
            "  required(:required_string_key).value(:string)",
            "  optional(:optional_string_key).value(:string)",
            "  required(:required_boolean_key).value(:boolean)",
            "  optional(:optional_boolean_key).value(:boolean)",
            "  required(:required_array_key).value(:array)",
            "  optional(:optional_array_key).value(:array)",
            "  required(:required_object_key).value(:hash)",
            "  optional(:optional_object_key).value(:hash)",
            "end",
        ],
    );
}

#[test]
fn query_validates_integer() {
    check_parameters(
        vec![
        q("user_id", true, integer(Some(10), Some(20))),
        ],
        &[
            "TestExample = Dry::Schema::Params do",
            "  required(:user_id).value(:integer, min: 10, max: 20)",
            "end",
        ],
    );
}

#[test]
fn query_validates_string() {
    check_parameters(
        vec![
        q("user_id", true, st(Some(10), Some(20))),
        ],
        &[
            "TestExample = Dry::Schema::Params do",
            "  required(:user_id).value(:string, min_size: 10, max_size: 20)",
            "end",
        ],
    );
}

#[test]
fn query_validates_array() {
    check_parameters(
        vec![
        q("user_id", true, arr(Some(5), Some(10), Some(any()))),
        ],
        &[
            "TestExample = Dry::Schema::Params do",
            "  required(:user_id).value(:array, min_size: 5, max_size: 10)",
            "end",
        ],
    );
}

#[test]
fn query_query_item_types_in_array() {
    check_parameters(
        vec![
        q("integer_item", false, arr(None, None, Some(integer(None, None)))),
        q("string_item", false, arr(None, None, Some(st(None, None)))),
        q("boolean_item", false, arr(None, None, Some(boolean()))),
        q("array_item", false, arr(None, None, Some(arr(None, None, None)))),
        q("object_item", false, arr(None, None, Some(obj(vec![], &[])))),
        ],
        &[
            "TestExample = Dry::Schema::Params do",
            "  optional(:integer_item).value(:array).each(:int?)",
            "  optional(:string_item).value(:array).each(:str?)",
            "  optional(:boolean_item).value(:array).each(:bool?)",
            "  optional(:array_item).value(:array).each(:array?)",
            "  optional(:object_item).value(:array).each(:hash?)",
            "end",
        ],
    );
}

#[test]
fn query_query_item_types_with_validation_in_array() {
    check_parameters(
        vec![
        q("integer_item", false, arr(Some(1), Some(2), Some(integer(Some(3), Some(4))))),
        q("string_item", false, arr(Some(5), Some(6), Some(st(Some(7), Some(8))))),
        q("boolean_item", false, arr(Some(9), Some(10), Some(boolean()))),
        q("array_item", false, arr(Some(11), Some(12), Some(arr(Some(13), Some(14), None)))),
        q("object_item", false, arr(Some(15), Some(16), Some(obj(vec![], &[])))),
        ],
        &[
            "TestExample = Dry::Schema::Params do",
            "  optional(:integer_item).value(:array, min_size: 1, max_size: 2).each(:int?, min: 3, max: 4)",
            "  optional(:string_item).value(:array, min_size: 5, max_size: 6).each(:str?, min_size: 7, max_size: 8)",
            "  optional(:boolean_item).value(:array, min_size: 9, max_size: 10).each(:bool?)",
            "  optional(:array_item).value(:array, min_size: 11, max_size: 12).each(:array?, min_size: 13, max_size: 14)",
            "  optional(:object_item).value(:array, min_size: 15, max_size: 16).each(:hash?)",
            "end",
        ],
    );
}

#[test]
fn query_query_nested_array() {
    check_parameters(
        vec![
        q("nested_integer", true, arr(None, None, Some(arr(None, None, Some(arr(None, None, Some(integer(None, None)))))))),
        q("nested_string", true, arr(None, None, Some(arr(None, None, Some(arr(None, None, Some(st(None, None)))))))),
        q("nested_boolean", true, arr(None, None, Some(arr(None, None, Some(arr(None, None, Some(boolean()))))))),
        q("nested_array", true, arr(None, None, Some(arr(None, None, Some(arr(None, None, Some(arr(None, None, None)))))))),
        q("nested_object", true, arr(None, None, Some(arr(None, None, Some(arr(None, None, Some(obj(vec![], &[])))))))),
        ],
        &[
            "TestExample = Dry::Schema::Params do",
            "  required(:nested_integer).value(:array).each(:array?) do",
            "    schema(:array?).each(:array?) do",
            "      schema(:array?).each(:int?)",
            "    end",
            "  end",
            "  required(:nested_string).value(:array).each(:array?) do",
            "    schema(:array?).each(:array?) do",
            "      schema(:array?).each(:str?)",
            "    end",
            "  end",
            "  required(:nested_boolean).value(:array).each(:array?) do",
            "    schema(:array?).each(:array?) do",
            "      schema(:array?).each(:bool?)",
            "    end",
            "  end",
            "  required(:nested_array).value(:array).each(:array?) do",
            "    schema(:array?).each(:array?) do",
            "      schema(:array?).each(:array?)",
            "    end",
            "  end",
            "  required(:nested_object).value(:array).each(:array?) do",
            "    schema(:array?).each(:array?) do",
            "      schema(:array?).each(:hash?)",
            "    end",
            "  end",
            "end",
        ],
    );
}

#[test]
fn query_query_nested_array_with_validation() {
    check_parameters(
        vec![
        q("nested_integer", true, arr(Some(1), Some(2), Some(arr(Some(3), Some(4), Some(arr(Some(5), Some(6), Some(integer(Some(7), Some(8))))))))),
        q("nested_string", true, arr(Some(9), Some(10), Some(arr(Some(11), Some(12), Some(arr(Some(13), Some(14), Some(st(Some(15), Some(16))))))))),
        q("nested_boolean", true, arr(Some(17), Some(18), Some(arr(Some(19), Some(20), Some(arr(Some(21), Some(22), Some(boolean()))))))),
        q("nested_array", true, arr(Some(23), Some(24), Some(arr(Some(25), Some(26), Some(arr(Some(27), Some(28), Some(arr(Some(29), Some(30), None)))))))),
        q("nested_object", true, arr(Some(31), Some(32), Some(arr(Some(33), Some(34), Some(arr(Some(35), Some(36), Some(obj(vec![], &[])))))))),
        ],
        &[
            "TestExample = Dry::Schema::Params do",
            "  required(:nested_integer).value(:array, min_size: 1, max_size: 2).each(:array?, min_size: 3, max_size: 4) do",
            "    schema(:array?).each(:array?, min_size: 5, max_size: 6) do",
            "      schema(:array?).each(:int?, min: 7, max: 8)",
            "    end",
            "  end",
            "  required(:nested_string).value(:array, min_size: 9, max_size: 10).each(:array?, min_size: 11, max_size: 12) do",
            "    schema(:array?).each(:array?, min_size: 13, max_size: 14) do",
            "      schema(:array?).each(:str?, min_size: 15, max_size: 16)",
            "    end",
            "  end",
            "  required(:nested_boolean).value(:array, min_size: 17, max_size: 18).each(:array?, min_size: 19, max_size: 20) do",
            "    schema(:array?).each(:array?, min_size: 21, max_size: 22) do",
            "      schema(:array?).each(:bool?)",
            "    end",
            "  end",
            "  required(:nested_array).value(:array, min_size: 23, max_size: 24).each(:array?, min_size: 25, max_size: 26) do",
            "    schema(:array?).each(:array?, min_size: 27, max_size: 28) do",
            "      schema(:array?).each(:array?, min_size: 29, max_size: 30)",
            "    end",
            "  end",
            "  required(:nested_object).value(:array, min_size: 31, max_size: 32).each(:array?, min_size: 33, max_size: 34) do",
            "    schema(:array?).each(:array?, min_size: 35, max_size: 36) do",
            "      schema(:array?).each(:hash?)",
            "    end",
            "  end",
            "end",
        ],
    );
}

#[test]
fn query_query_property_types_in_hash() {
    check_parameters(
        vec![
        q("integer_property", false, obj(
            vec![
                ("integer_prop", integer(None, None)),
                ("string_prop", st(None, None)),
                ("boolean_prop", boolean()),
                ("array_prop", arr(None, None, None)),
                ("object_prop", obj(vec![], &[])),
            ],
            &[],
        )),
        ],
        &[
            "TestExample = Dry::Schema::Params do",
            "  optional(:integer_property).value(:hash) do",
            "    optional(:integer_prop).value(:integer)",
            "    optional(:string_prop).value(:string)",
            "    optional(:boolean_prop).value(:boolean)",
            "    optional(:array_prop).value(:array)",
            "    optional(:object_prop).value(:hash)",
            "  end",
            "end",
        ],
    );
}

#[test]
fn query_query_property_types_with_validation_in_object() {
    check_parameters(
        vec![
        q("property_types", false, obj(
            vec![
                ("integer_prop", integer(Some(1), Some(2))),
                ("string_prop", st(Some(3), Some(4))),
                ("boolean_prop", boolean()),
                ("array_prop", arr(Some(5), Some(6), None)),
                ("object_prop", obj(vec![], &[])),
            ],
            &[],
        )),
        ],
        &[
            "TestExample = Dry::Schema::Params do",
            "  optional(:property_types).value(:hash) do",
            "    optional(:integer_prop).value(:integer, min: 1, max: 2)",
            "    optional(:string_prop).value(:string, min_size: 3, max_size: 4)",
            "    optional(:boolean_prop).value(:boolean)",
            "    optional(:array_prop).value(:array, min_size: 5, max_size: 6)",
            "    optional(:object_prop).value(:hash)",
            "  end",
            "end",
        ],
    );
}

#[test]
fn query_query_nested_object() {
    check_parameters(
        vec![
        q("nested_object", true, obj(
            vec![
                ("nested_1", obj(
                    vec![
                        ("nested_2", obj(
                            vec![
                                ("nested_3_1", integer(None, None)),
                                ("nested_3_2", st(None, None)),
                                ("nested_3_3", boolean()),
                                ("nested_3_4", arr(None, None, None)),
                                ("nested_3_5", obj(vec![], &[])),
                            ],
                            &[],
                        )),
                    ],
                    &[],
                )),
            ],
            &[],
        )),
        ],
        &[
            "TestExample = Dry::Schema::Params do",
            "  required(:nested_object).value(:hash) do",
            "    optional(:nested_1).value(:hash) do",
            "      optional(:nested_2).value(:hash) do",
            "        optional(:nested_3_1).value(:integer)",
            "        optional(:nested_3_2).value(:string)",
            "        optional(:nested_3_3).value(:boolean)",
            "        optional(:nested_3_4).value(:array)",
            "        optional(:nested_3_5).value(:hash)",
            "      end",
            "    end",
            "  end",
            "end",
        ],
    );
}

#[test]
fn query_query_nested_object_with_validation() {
    check_parameters(
        vec![
        q("nested_object", true, obj(
            vec![
                ("nested_1", obj(
                    vec![
                        ("nested_2", obj(
                            vec![
                                ("nested_3_1", integer(Some(1), Some(2))),
                                ("nested_3_2", st(Some(3), Some(4))),
                                ("nested_3_3", boolean()),
                                ("nested_3_4", arr(Some(5), Some(6), None)),
                                ("nested_3_5", obj(vec![], &[])),
                            ],
                            &[],
                        )),
                    ],
                    &[],
                )),
            ],
            &[],
        )),
        ],
        &[
            "TestExample = Dry::Schema::Params do",
            "  required(:nested_object).value(:hash) do",
            "    optional(:nested_1).value(:hash) do",
            "      optional(:nested_2).value(:hash) do",
            "        optional(:nested_3_1).value(:integer, min: 1, max: 2)",
            "        optional(:nested_3_2).value(:string, min_size: 3, max_size: 4)",
            "        optional(:nested_3_3).value(:boolean)",
            "        optional(:nested_3_4).value(:array, min_size: 5, max_size: 6)",
            "        optional(:nested_3_5).value(:hash)",
            "      end",
            "    end",
            "  end",
            "end",
        ],
    );
}

#[test]
fn query_query_nested_object_with_required() {
    check_parameters(
        vec![
        q("nested_object", true, obj(
            vec![
                ("nested_1", obj(
                    vec![
                        ("nested_2", obj(
                            vec![
                                ("nested_3_1", integer(Some(1), Some(2))),
                                ("nested_3_2", st(Some(3), Some(4))),
                                ("nested_3_3", boolean()),
                            ],
                            &["nested_3_1", "nested_3_3"],
                        )),
                    ],
                    &["nested_2"],
                )),
            ],
            &["nested_1"],
        )),
        ],
        &[
            "TestExample = Dry::Schema::Params do",
            "  required(:nested_object).value(:hash) do",
            "    required(:nested_1).value(:hash) do",
            "      required(:nested_2).value(:hash) do",
            "        required(:nested_3_1).value(:integer, min: 1, max: 2)",
            "        optional(:nested_3_2).value(:string, min_size: 3, max_size: 4)",
            "        required(:nested_3_3).value(:boolean)",
            "      end",
            "    end",
            "  end",
            "end",
        ],
    );
}

#[test]
fn query_query_object_required_with_the_same_name() {
    check_parameters(
        vec![
        q("nested_object", true, obj(
            vec![
                ("same_key", obj(
                    vec![
                        ("same_key", boolean()),
                    ],
                    &[],
                )),
            ],
            &["same_key"],
        )),
        ],
        &[
            "TestExample = Dry::Schema::Params do",
            "  required(:nested_object).value(:hash) do",
            "    required(:same_key).value(:hash) do",
            "      optional(:same_key).value(:boolean)",
            "    end",
            "  end",
            "end",
        ],
    );
}

#[test]
fn query_test_query_types() {
    check_parameters(
        vec![
        q("string_key", false, st(None, None)),
        q("number_key", false, num()),
        q("integer_key", false, integer(None, None)),
        q("boolean_key", false, boolean()),
        q("array_key", false, arr(None, None, None)),
        q("object_key", false, obj(vec![], &[])),
        ],
        &[
            "TestExample = Dry::Schema::Params do",
            "  optional(:string_key).value(:string)",
            "  optional(:number_key).value(:float)",
            "  optional(:integer_key).value(:integer)",
            "  optional(:boolean_key).value(:boolean)",
            "  optional(:array_key).value(:array)",
            "  optional(:object_key).value(:hash)",
            "end",
        ],
    );
}

#[test]
fn query_test_query_required_and_optional() {
    check_parameters(
        vec![
        q("required_integer_key", true, integer(None, None)),
        q("optional_integer_key", false, integer(None, None)),
        q("required_number_key", true, num()),
        q("optional_number_key", false, num()),
        q("required_string_key", true, st(None, None)),
        q("optional_string_key", false, st(None, None)),
        q("required_boolean_key", true, boolean()),
        q("optional_boolean_key", false, boolean()),
        q("required_array_key", true, arr(None, None, None)),
        q("optional_array_key", false, arr(None, None, None)),
        q("required_object_key", true, obj(vec![], &[])),
        q("optional_object_key", false, obj(vec![], &[])),
        ],
        &[
            "TestExample = Dry::Schema::Params do",
            "  required(:required_integer_key).value(:integer)",
            "  optional(:optional_integer_key).value(:integer)",
            "  required(:required_number_key).value(:float)",
            "  optional(:optional_number_key).value(:float)",
            "  required(:required_string_key).value(:string)",
            "  optional(:optional_string_key).value(:string)",
            "  required(:required_boolean_key).value(:boolean)",
            "  optional(:optional_boolean_key).value(:boolean)",
            "  required(:required_array_key).value(:array)",
            "  optional(:optional_array_key).value(:array)",
            "  required(:required_object_key).value(:hash)",
            "  optional(:optional_object_key).value(:hash)",
            "end",
        ],
    );
}

#[test]
fn query_validations() {
    check_parameters(
        vec![
        q("integer_key", true, integer(Some(1), Some(2))),
        q("number_key", true, num()),
        q("string_key", true, st(Some(5), Some(6))),
        q("array_key", true, arr(Some(7), Some(8), Some(any()))),
        ],
        &[
            "TestExample = Dry::Schema::Params do",
            "  required(:integer_key).value(:integer, min: 1, max: 2)",
            "  required(:number_key).value(:float)",
            "  required(:string_key).value(:string, min_size: 5, max_size: 6)",
            "  required(:array_key).value(:array, min_size: 7, max_size: 8)",
            "end",
        ],
    );
}

#[test]
fn query_test_query_item_types_in_array() {
    check_parameters(
        vec![
        q("integer_item", false, arr(None, None, Some(integer(None, None)))),
        q("number_item", false, arr(None, None, Some(num()))),
        q("string_item", false, arr(None, None, Some(st(None, None)))),
        q("boolean_item", false, arr(None, None, Some(boolean()))),
        q("array_item", false, arr(None, None, Some(arr(None, None, None)))),
        q("object_item", false, arr(None, None, Some(obj(vec![], &[])))),
        ],
        &[
            "TestExample = Dry::Schema::Params do",
            "  optional(:integer_item).value(:array).each(:int?)",
            "  optional(:number_item).value(:array).each(:float?)",
            "  optional(:string_item).value(:array).each(:str?)",
            "  optional(:boolean_item).value(:array).each(:bool?)",
            "  optional(:array_item).value(:array).each(:array?)",
            "  optional(:object_item).value(:array).each(:hash?)",
            "end",
        ],
    );
}

#[test]
fn query_test_query_item_types_with_validation_in_array() {
    check_parameters(
        vec![
        q("integer_item", false, arr(Some(1), Some(2), Some(integer(Some(3), Some(4))))),
        q("number_item", false, arr(Some(5), Some(6), Some(num()))),
        q("string_item", false, arr(Some(9), Some(10), Some(st(Some(11), Some(12))))),
        q("boolean_item", false, arr(Some(13), Some(14), Some(boolean()))),
        q("array_item", false, arr(Some(15), Some(16), Some(arr(Some(17), Some(18), None)))),
        q("object_item", false, arr(Some(19), Some(20), Some(obj(vec![], &[])))),
        ],
        &[
            "TestExample = Dry::Schema::Params do",
            "  optional(:integer_item).value(:array, min_size: 1, max_size: 2).each(:int?, min: 3, max: 4)",
            "  optional(:number_item).value(:array, min_size: 5, max_size: 6).each(:float?)",
            "  optional(:string_item).value(:array, min_size: 9, max_size: 10).each(:str?, min_size: 11, max_size: 12)",
            "  optional(:boolean_item).value(:array, min_size: 13, max_size: 14).each(:bool?)",
            "  optional(:array_item).value(:array, min_size: 15, max_size: 16).each(:array?, min_size: 17, max_size: 18)",
            "  optional(:object_item).value(:array, min_size: 19, max_size: 20).each(:hash?)",
            "end",
        ],
    );
}

#[test]
fn query_test_query_nested_array() {
    check_parameters(
        vec![
        q("nested_integer", true, arr(None, None, Some(arr(None, None, Some(arr(None, None, Some(integer(None, None)))))))),
        q("nested_number", true, arr(None, None, Some(arr(None, None, Some(arr(None, None, Some(num()))))))),
        q("nested_string", true, arr(None, None, Some(arr(None, None, Some(arr(None, None, Some(st(None, None)))))))),
        q("nested_boolean", true, arr(None, None, Some(arr(None, None, Some(arr(None, None, Some(boolean()))))))),
        q("nested_array", true, arr(None, None, Some(arr(None, None, Some(arr(None, None, Some(arr(None, None, None)))))))),
        q("nested_object", true, arr(None, None, Some(arr(None, None, Some(arr(None, None, Some(obj(vec![], &[])))))))),
        ],
        &[
            "TestExample = Dry::Schema::Params do",
            "  required(:nested_integer).value(:array).each(:array?) do",
            "    schema(:array?).each(:array?) do",
            "      schema(:array?).each(:int?)",
            "    end",
            "  end",
            "  required(:nested_number).value(:array).each(:array?) do",
            "    schema(:array?).each(:array?) do",
            "      schema(:array?).each(:float?)",
            "    end",
            "  end",
            "  required(:nested_string).value(:array).each(:array?) do",
            "    schema(:array?).each(:array?) do",
            "      schema(:array?).each(:str?)",
            "    end",
            "  end",
            "  required(:nested_boolean).value(:array).each(:array?) do",
            "    schema(:array?).each(:array?) do",
            "      schema(:array?).each(:bool?)",
            "    end",
            "  end",
            "  required(:nested_array).value(:array).each(:array?) do",
            "    schema(:array?).each(:array?) do",
            "      schema(:array?).each(:array?)",
            "    end",
            "  end",
            "  required(:nested_object).value(:array).each(:array?) do",
            "    schema(:array?).each(:array?) do",
            "      schema(:array?).each(:hash?)",
            "    end",
            "  end",
            "end",
        ],
    );
}

#[test]
fn query_test_query_nested_array_with_validation() {
    check_parameters(
        vec![
        q("nested_integer", true, arr(Some(1), Some(2), Some(arr(Some(3), Some(4), Some(arr(Some(5), Some(6), Some(integer(Some(7), Some(8))))))))),
        q("nested_number", true, arr(Some(9), Some(10), Some(arr(Some(11), Some(12), Some(arr(Some(13), Some(14), Some(num()))))))),
        q("nested_string", true, arr(Some(17), Some(18), Some(arr(Some(19), Some(20), Some(arr(Some(21), Some(22), Some(st(Some(23), Some(24))))))))),
        q("nested_boolean", true, arr(Some(25), Some(26), Some(arr(Some(27), Some(28), Some(arr(Some(29), Some(30), Some(boolean()))))))),
        q("nested_array", true, arr(Some(31), Some(32), Some(arr(Some(33), Some(34), Some(arr(Some(35), Some(36), Some(arr(Some(37), Some(38), None)))))))),
        q("nested_object", true, arr(Some(39), Some(40), Some(arr(Some(41), Some(42), Some(arr(Some(43), Some(44), Some(obj(vec![], &[])))))))),
        ],
        &[
            "TestExample = Dry::Schema::Params do",
            "  required(:nested_integer).value(:array, min_size: 1, max_size: 2).each(:array?, min_size: 3, max_size: 4) do",
            "    schema(:array?).each(:array?, min_size: 5, max_size: 6) do",
            "      schema(:array?).each(:int?, min: 7, max: 8)",
            "    end",
            "  end",
            "  required(:nested_number).value(:array, min_size: 9, max_size: 10).each(:array?, min_size: 11, max_size: 12) do",
            "    schema(:array?).each(:array?, min_size: 13, max_size: 14) do",
            "      schema(:array?).each(:float?)",
            "    end",
            "  end",
            "  required(:nested_string).value(:array, min_size: 17, max_size: 18).each(:array?, min_size: 19, max_size: 20) do",
            "    schema(:array?).each(:array?, min_size: 21, max_size: 22) do",
            "      schema(:array?).each(:str?, min_size: 23, max_size: 24)",
            "    end",
            "  end",
            "  required(:nested_boolean).value(:array, min_size: 25, max_size: 26).each(:array?, min_size: 27, max_size: 28) do",
            "    schema(:array?).each(:array?, min_size: 29, max_size: 30) do",
            "      schema(:array?).each(:bool?)",
            "    end",
            "  end",
            "  required(:nested_array).value(:array, min_size: 31, max_size: 32).each(:array?, min_size: 33, max_size: 34) do",
            "    schema(:array?).each(:array?, min_size: 35, max_size: 36) do",
            "      schema(:array?).each(:array?, min_size: 37, max_size: 38)",
            "    end",
            "  end",
            "  required(:nested_object).value(:array, min_size: 39, max_size: 40).each(:array?, min_size: 41, max_size: 42) do",
            "    schema(:array?).each(:array?, min_size: 43, max_size: 44) do",
            "      schema(:array?).each(:hash?)",
            "    end",
            "  end",
            "end",
        ],
    );
}

#[test]
fn query_test_query_property_types_in_hash() {
    check_parameters(
        vec![
        q("integer_property", false, obj(
            vec![
                ("integer_prop", integer(None, None)),
                ("number_prop", num()),
                ("string_prop", st(None, None)),
                ("boolean_prop", boolean()),
                ("array_prop", arr(None, None, None)),
                ("object_prop", obj(vec![], &[])),
            ],
            &[],
        )),
        ],
        &[
            "TestExample = Dry::Schema::Params do",
            "  optional(:integer_property).value(:hash) do",
            "    optional(:integer_prop).value(:integer)",
            "    optional(:number_prop).value(:float)",
            "    optional(:string_prop).value(:string)",
            "    optional(:boolean_prop).value(:boolean)",
            "    optional(:array_prop).value(:array)",
            "    optional(:object_prop).value(:hash)",
            "  end",
            "end",
        ],
    );
}

#[test]
fn query_test_query_property_types_with_validation_in_object() {
    check_parameters(
        vec![
        q("property_types", false, obj(
            vec![
                ("integer_prop", integer(Some(1), Some(2))),
                ("number_prop", num()),
                ("string_prop", st(Some(5), Some(6))),
                ("boolean_prop", boolean()),
                ("array_prop", arr(Some(7), Some(8), None)),
                ("object_prop", obj(vec![], &[])),
            ],
            &[],
        )),
        ],
        &[
            "TestExample = Dry::Schema::Params do",
            "  optional(:property_types).value(:hash) do",
            "    optional(:integer_prop).value(:integer, min: 1, max: 2)",
            "    optional(:number_prop).value(:float)",
            "    optional(:string_prop).value(:string, min_size: 5, max_size: 6)",
            "    optional(:boolean_prop).value(:boolean)",
            "    optional(:array_prop).value(:array, min_size: 7, max_size: 8)",
            "    optional(:object_prop).value(:hash)",
            "  end",
            "end",
        ],
    );
}

#[test]
fn query_test_query_nested_object() {
    check_parameters(
        vec![
        q("nested_object", true, obj(
            vec![
                ("nested_1", obj(
                    vec![
                        ("nested_2", obj(
                            vec![
                                ("nested_3_1", integer(None, None)),
                                ("nested_3_2", num()),
                                ("nested_3_3", st(None, None)),
                                ("nested_3_4", boolean()),
                                ("nested_3_5", arr(None, None, None)),
                                ("nested_3_6", obj(vec![], &[])),
                            ],
                            &[],
                        )),
                    ],
                    &[],
                )),
            ],
            &[],
        )),
        ],
        &[
            "TestExample = Dry::Schema::Params do",
            "  required(:nested_object).value(:hash) do",
            "    optional(:nested_1).value(:hash) do",
            "      optional(:nested_2).value(:hash) do",
            "        optional(:nested_3_1).value(:integer)",
            "        optional(:nested_3_2).value(:float)",
            "        optional(:nested_3_3).value(:string)",
            "        optional(:nested_3_4).value(:boolean)",
            "        optional(:nested_3_5).value(:array)",
            "        optional(:nested_3_6).value(:hash)",
            "      end",
            "    end",
            "  end",
            "end",
        ],
    );
}

#[test]
fn query_test_query_nested_object_with_validation() {
    check_parameters(
        vec![
        q("nested_object", true, obj(
            vec![
                ("nested_1", obj(
                    vec![
                        ("nested_2", obj(
                            vec![
                                ("nested_3_1", integer(Some(1), Some(2))),
                                ("nested_3_2", num()),
                                ("nested_3_3", st(Some(5), Some(6))),
                                ("nested_3_4", boolean()),
                                ("nested_3_5", arr(Some(7), Some(8), None)),
                                ("nested_3_6", obj(vec![], &[])),
                            ],
                            &[],
                        )),
                    ],
                    &[],
                )),
            ],
            &[],
        )),
        ],
        &[
            "TestExample = Dry::Schema::Params do",
            "  required(:nested_object).value(:hash) do",
            "    optional(:nested_1).value(:hash) do",
            "      optional(:nested_2).value(:hash) do",
            "        optional(:nested_3_1).value(:integer, min: 1, max: 2)",
            "        optional(:nested_3_2).value(:float)",
            "        optional(:nested_3_3).value(:string, min_size: 5, max_size: 6)",
            "        optional(:nested_3_4).value(:boolean)",
            "        optional(:nested_3_5).value(:array, min_size: 7, max_size: 8)",
            "        optional(:nested_3_6).value(:hash)",
            "      end",
            "    end",
            "  end",
            "end",
        ],
    );
}

#[test]
fn query_test_query_nested_object_with_required() {
    check_parameters(
        vec![
        q("nested_object", true, obj(
            vec![
                ("nested_1", obj(
                    vec![
                        ("nested_2", obj(
                            vec![
                                ("nested_3_1", integer(Some(1), Some(2))),
                                ("nested_3_2", st(Some(3), Some(4))),
                                ("nested_3_3", boolean()),
                            ],
                            &["nested_3_1", "nested_3_3"],
                        )),
                    ],
                    &["nested_2"],
                )),
            ],
            &["nested_1"],
        )),
        ],
        &[
            "TestExample = Dry::Schema::Params do",
            "  required(:nested_object).value(:hash) do",
            "    required(:nested_1).value(:hash) do",
            "      required(:nested_2).value(:hash) do",
            "        required(:nested_3_1).value(:integer, min: 1, max: 2)",
            "        optional(:nested_3_2).value(:string, min_size: 3, max_size: 4)",
            "        required(:nested_3_3).value(:boolean)",
            "      end",
            "    end",
            "  end",
            "end",
        ],
    );
}

#[test]
fn query_test_query_object_required_with_the_same_name() {
    check_parameters(
        vec![
        q("nested_object", true, obj(
            vec![
                ("same_key", obj(
                    vec![
                        ("same_key", boolean()),
                    ],
                    &[],
                )),
            ],
            &["same_key"],
        )),
        ],
        &[
            "TestExample = Dry::Schema::Params do",
            "  required(:nested_object).value(:hash) do",
            "    required(:same_key).value(:hash) do",
            "      optional(:same_key).value(:boolean)",
            "    end",
            "  end",
            "end",
        ],
    );
}
