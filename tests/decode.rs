use jmeter_to_goose::number::{read_bool, read_i32, read_i64};
use jmeter_to_goose::{
    BoolProp, CollectionProp, CompositeProp, DecodeError, Deserializer, Element, ElementArgument,
    ElementHeader, ElementLoopController, ElementProp, ElementType, HashMappable, HeaderManager,
    IntProp, LongProp, Pairable, PropertyMap, StringProp, TestClass, TestPlan, ThreadGroup,
    XmlNode,
};

fn convert(e: &xmltree::Element) -> Element {
    Element {
        name: e.name.clone(),
        attributes: e
            .attributes
            .iter()
            .map(|(k, v)| (k.clone(), v.clone()))
            .collect(),
        children: e
            .children
            .iter()
            .map(|c| match c {
                xmltree::XMLNode::Element(x) => XmlNode::Element(convert(x)),
                xmltree::XMLNode::Comment(s) => XmlNode::Comment(s.clone()),
                xmltree::XMLNode::CData(s) => XmlNode::CData(s.clone()),
                xmltree::XMLNode::Text(s) => XmlNode::Text(s.clone()),
                xmltree::XMLNode::ProcessingInstruction(n, d) => {
                    XmlNode::ProcessingInstruction(n.clone(), d.clone())
                }
            })
            .collect(),
    }
}

fn xml(text: &str) -> Element {
    convert(&xmltree::Element::parse(text.trim().as_bytes()).unwrap())
}

const STRING_PROP: &str = r#"<stringProp name="prop name">string prop value</stringProp>"#;

const BOOL_PROP: &str = r#"<boolProp name="prop name">true</boolProp>"#;

const COLLECTION_PROP_1: &str = r#"
<collectionProp name="Arguments.arguments">
  <elementProp name="protocol" elementType="Argument">
    <stringProp name="Argument.name">protocol</stringProp>
    <stringProp name="Argument.value">https</stringProp>
    <stringProp name="Argument.metadata">=</stringProp>
  </elementProp>
  <elementProp name="ip" elementType="Argument">
    <stringProp name="Argument.name">ip</stringProp>
    <stringProp name="Argument.value">example.github.com</stringProp>
    <stringProp name="Argument.metadata">=</stringProp>
  </elementProp>
</collectionProp>
"#;

const COLLECTION_PROP_2: &str = r#"
<collectionProp name="HeaderManager.headers">
  <elementProp name="" elementType="Header">
    <stringProp name="Header.name">Content-Type</stringProp>
    <stringProp name="Header.value">application/json</stringProp>
  </elementProp>
  <elementProp name="" elementType="Header">
    <stringProp name="Header.name">accept-encoding</stringProp>
    <stringProp name="Header.value">gzip</stringProp>
  </elementProp>
</collectionProp>
"#;

const HEADER_MANAGER: &str = r#"
<HeaderManager guiclass="HeaderPanel" testclass="HeaderManager" testname="HTTP Header Manager" enabled="true">
  <collectionProp name="HeaderManager.headers">
    <elementProp name="" elementType="Header">
      <stringProp name="Header.name">Content-Type</stringProp>
      <stringProp name="Header.value">application/json</stringProp>
    </elementProp>
    <elementProp name="" elementType="Header">
      <stringProp name="Header.name">accept-encoding</stringProp>
      <stringProp name="Header.value">gzip</stringProp>
    </elementProp>
  </collectionProp>
</HeaderManager>
"#;

const ELEMENT_HEADER: &str = r#"
<elementProp name="" elementType="Header">
  <stringProp name="Header.name">header name</stringProp>
  <stringProp name="Header.value">header value</stringProp>
</elementProp>
"#;

const ELEMENT_ARGUMENT: &str = r#"
<elementProp name="protocol" elementType="Argument">
  <stringProp name="Argument.name">protocol</stringProp>
  <stringProp name="Argument.value">https</stringProp>
  <stringProp name="Argument.metadata">=</stringProp>
</elementProp>
"#;

const ELEMENT_LOOP_CONTROLLER: &str = r#"
<elementProp name="ThreadGroup.main_controller" elementType="LoopController" guiclass="LoopControlPanel" testclass="LoopController" testname="Loop Controller" enabled="true">
  <boolProp name="LoopController.continue_forever">false</boolProp>
  <stringProp name="LoopController.loops">1</stringProp>
</elementProp>
"#;

const TEST_PLAN: &str = r#"
<TestPlan guiclass="TestPlanGui" testclass="TestPlan" testname="Test Plan" enabled="true">
  <stringProp name="TestPlan.comments"></stringProp>
  <boolProp name="TestPlan.functional_mode">false</boolProp>
  <boolProp name="TestPlan.tearDown_on_shutdown">true</boolProp>
  <boolProp name="TestPlan.serialize_threadgroups">false</boolProp>
  <elementProp name="TestPlan.user_defined_variables" elementType="Arguments" guiclass="ArgumentsPanel" testclass="Arguments" testname="User Defined Variables" enabled="true">
    <collectionProp name="Arguments.arguments">
      <elementProp name="protocol" elementType="Argument">
        <stringProp name="Argument.name">protocol</stringProp>
        <stringProp name="Argument.value">https</stringProp>
        <stringProp name="Argument.metadata">=</stringProp>
      </elementProp>
      <elementProp name="ip" elementType="Argument">
        <stringProp name="Argument.name">ip</stringProp>
        <stringProp name="Argument.value">example.github.com</stringProp>
        <stringProp name="Argument.metadata">=</stringProp>
      </elementProp>
    </collectionProp>
  </elementProp>
  <stringProp name="TestPlan.user_define_classpath"></stringProp>
</TestPlan>
"#;

const THREAD_GROUP: &str = r#"
<ThreadGroup guiclass="ThreadGroupGui" testclass="ThreadGroup" testname="Thread Group" enabled="true">
  <stringProp name="ThreadGroup.on_sample_error">continue</stringProp>
  <elementProp name="ThreadGroup.main_controller" elementType="LoopController" guiclass="LoopControlPanel" testclass="LoopController" testname="Loop Controller" enabled="true">
    <boolProp name="LoopController.continue_forever">false</boolProp>
    <stringProp name="LoopController.loops">3</stringProp>
  </elementProp>
  <stringProp name="ThreadGroup.num_threads">10</stringProp>
  <stringProp name="ThreadGroup.ramp_time">5</stringProp>
  <boolProp name="ThreadGroup.scheduler">false</boolProp>
  <stringProp name="ThreadGroup.duration">${DURATION}</stringProp>
  <stringProp name="ThreadGroup.delay">30</stringProp>
  <boolProp name="ThreadGroup.same_user_on_next_iteration">true</boolProp>
</ThreadGroup>
"#;

fn document(inner: &str) -> String {
    format!(
        r#"<jmeterTestPlan version="1.2" properties="5.0" jmeter="5.4.1"><hashTree>{}</hashTree></jmeterTestPlan>"#,
        inner
    )
}

fn full_document() -> String {
    document(&format!(
        r#"{}<hashTree>{}<hashTree>{}<hashTree/>
        <ResultCollector guiclass="ViewResultsFullVisualizer" testclass="ResultCollector" testname="View Results Tree" enabled="true">
          <boolProp name="ResultCollector.error_logging">false</boolProp>
        </ResultCollector>
        <hashTree/></hashTree></hashTree>"#,
        TEST_PLAN, THREAD_GROUP, HEADER_MANAGER
    ))
}

fn group(children: Vec<Element>) -> Element {
    Element {
        name: String::from("hashTree"),
        attributes: vec![],
        children: children.into_iter().map(XmlNode::Element).collect(),
    }
}

#[test]
fn string_prop_check_parse() {
    assert_eq!(
        StringProp::parse(&xml(STRING_PROP)),
        Ok(StringProp {
            name: String::from("prop name"),
            value: String::from("string prop value")
        })
    )
}

#[test]
fn bool_prop_check_parse() {
    assert_eq!(
        BoolProp::parse(&xml(BOOL_PROP)),
        Ok(BoolProp {
            name: String::from("prop name"),
            value: true
        })
    )
}

#[test]
fn string_prop_check_deserialize() {
    assert_eq!(
        StringProp::parse(&xml(STRING_PROP)),
        Ok(StringProp {
            name: String::from("prop name"),
            value: String::from("string prop value")
        })
    )
}

#[test]
fn bool_prop_check_deserialize() {
    assert_eq!(
        BoolProp::parse(&xml(BOOL_PROP)),
        Ok(BoolProp {
            name: String::from("prop name"),
            value: true
        })
    )
}

#[test]
fn element_prop_check_deserialize() {
    assert_eq!(
        ElementProp::parse(&xml(ELEMENT_ARGUMENT)),
        Ok(ElementProp {
            name: String::from("protocol"),
            element_type: ElementType::Argument
        })
    )
}

#[test]
fn check_parse_1() {
    assert_eq!(
        CollectionProp::parse(&xml(COLLECTION_PROP_1)),
        Ok(CollectionProp {
            props: vec![
                ElementArgument {
                    name: String::from("protocol"),
                    value: String::from("https"),
                    metadata: String::from("=")
                },
                ElementArgument {
                    name: String::from("ip"),
                    value: String::from("example.github.com"),
                    metadata: String::from("=")
                }
            ]
        })
    )
}

#[test]
fn check_parse_2() {
    assert_eq!(
        CollectionProp::parse(&xml(COLLECTION_PROP_2)),
        Ok(CollectionProp {
            props: vec![
                ElementHeader {
                    name: String::from("Content-Type"),
                    value: String::from("application/json")
                },
                ElementHeader {
                    name: String::from("accept-encoding"),
                    value: String::from("gzip")
                }
            ]
        })
    )
}

#[test]
fn config_element_check_parse() {
    let h = HeaderManager::parse(&xml(HEADER_MANAGER)).unwrap();
    assert_eq!(h.test_name, "HTTP Header Manager");
    assert!(h.enabled);
    assert_eq!(h.headers.len(), 2);
    assert_eq!(
        h.headers.get("Content-Type"),
        Some(String::from("application/json"))
    );
    assert_eq!(h.headers.get("accept-encoding"), Some(String::from("gzip")));
}

#[test]
fn check_parse_element_header() {
    assert_eq!(
        ElementHeader::parse(&xml(ELEMENT_HEADER)),
        Ok(ElementHeader {
            name: String::from("header name"),
            value: String::from("header value")
        })
    )
}

#[test]
fn check_parse_element_argument() {
    assert_eq!(
        ElementArgument::parse(&xml(ELEMENT_ARGUMENT)),
        Ok(ElementArgument {
            name: String::from("protocol"),
            value: String::from("https"),
            metadata: String::from("="),
        })
    )
}

#[test]
fn check_parse_element_loop_controller() {
    assert_eq!(
        ElementLoopController::parse(&xml(ELEMENT_LOOP_CONTROLLER)),
        Ok(ElementLoopController { loops: 1 })
    )
}

#[test]
fn test_plan_check_parse() {
    let p = TestPlan::parse(&xml(TEST_PLAN)).unwrap();
    assert_eq!(p.test_name, "Test Plan");
    assert!(p.enabled);
    assert_eq!(p.variables.len(), 2);
    assert_eq!(p.variables.get("protocol"), Some(String::from("https")));
    assert_eq!(
        p.variables.get("ip"),
        Some(String::from("example.github.com"))
    );
}

#[test]
fn header_collection_folds_in_order() {
    let c: CollectionProp<ElementHeader> = CollectionProp::parse(&xml(COLLECTION_PROP_2)).unwrap();
    assert_eq!(c.props.len(), 2);
    assert_eq!(c.props[0].to_pair(), ("Content-Type", "application/json"));
    assert_eq!(c.props[1].to_pair(), ("accept-encoding", "gzip"));
    let m = c.to_hash_map();
    assert_eq!(m.len(), 2);
    assert_eq!(m.get("Content-Type"), Some(String::from("application/json")));
    assert_eq!(m.get("accept-encoding"), Some(String::from("gzip")));
    assert_eq!(m.get("Accept-Encoding"), None);
}

#[test]
fn collection_skips_text_children() {
    let mut e = xml(COLLECTION_PROP_2);
    e.children.insert(1, XmlNode::Text(String::from("between")));
    e.children.push(XmlNode::Comment(String::from("after")));
    let c: CollectionProp<ElementHeader> = CollectionProp::parse(&e).unwrap();
    assert_eq!(c.props.len(), 2);
    assert_eq!(c.props[1].name, "accept-encoding");
}

#[test]
fn empty_collection_decodes_empty() {
    let c: CollectionProp<ElementArgument> =
        CollectionProp::parse(&xml(r#"<collectionProp name="Arguments.arguments"/>"#)).unwrap();
    assert!(c.props.is_empty());
    assert_eq!(c.to_hash_map().len(), 0);
}

#[test]
fn collection_with_other_name_is_refused() {
    let r: Result<CollectionProp<ElementArgument>, DecodeError> =
        CollectionProp::parse(&xml(COLLECTION_PROP_2));
    assert_eq!(
        r,
        Err(DecodeError::UnexpectedTag(String::from("Arguments.arguments")))
    );
}

#[test]
fn duplicate_names_keep_first_value() {
    let mut m = PropertyMap::new();
    m.insert(String::from("a"), String::from("1"));
    m.insert(String::from("b"), String::from("2"));
    m.insert(String::from("a"), String::from("3"));
    assert_eq!(m.len(), 2);
    assert_eq!(m.get("a"), Some(String::from("1")));
    assert_eq!(m.get("b"), Some(String::from("2")));
}

#[test]
fn thread_group_non_numeric_duration_is_none() {
    let g = ThreadGroup::parse(&xml(THREAD_GROUP)).unwrap();
    assert_eq!(
        g,
        ThreadGroup {
            test_name: String::from("Thread Group"),
            enabled: true,
            on_sample_error: String::from("continue"),
            loops: 3,
            num_threads: 10,
            ramp_time: 5,
            scheduler: false,
            duration: None,
            delay: Some(30),
        }
    );
}

#[test]
fn thread_group_without_delay_is_none() {
    let text = THREAD_GROUP.replace(r#"<stringProp name="ThreadGroup.delay">30</stringProp>"#, "");
    let g = ThreadGroup::parse(&xml(&text)).unwrap();
    assert_eq!(g.delay, None);
}

#[test]
fn thread_group_bad_thread_count_is_type_mismatch() {
    let text = THREAD_GROUP.replace(">10<", ">ten<");
    assert_eq!(
        ThreadGroup::parse(&xml(&text)),
        Err(DecodeError::TypeMismatch(String::from(
            "ThreadGroup.num_threads"
        )))
    );
}

#[test]
fn thread_group_missing_ramp_time_is_missing_child() {
    let text = THREAD_GROUP.replace(
        r#"<stringProp name="ThreadGroup.ramp_time">5</stringProp>"#,
        "",
    );
    assert_eq!(
        ThreadGroup::parse(&xml(&text)),
        Err(DecodeError::MissingChild(String::from(
            "ThreadGroup.ramp_time"
        )))
    );
}

#[test]
fn odd_sibling_group_is_malformed() {
    let e = xml(STRING_PROP);
    let g = group(vec![xml(STRING_PROP), xml(STRING_PROP), xml(STRING_PROP)]);
    assert!(matches!(
        TestClass::parse(&e, &g),
        Err(DecodeError::MalformedTree)
    ));
}

#[test]
fn group_with_wrong_tag_is_unexpected() {
    let e = xml(STRING_PROP);
    assert!(matches!(
        TestClass::parse(&e, &xml(STRING_PROP)),
        Err(DecodeError::UnexpectedTag(ref t)) if t == "hashTree"
    ));
}

#[test]
fn unknown_element_still_decodes_its_group() {
    let e = xml(r#"<ResultCollector testname="View Results Tree" enabled="true"/>"#);
    let ok = group(vec![xml(THREAD_GROUP), group(vec![])]);
    assert!(matches!(TestClass::parse(&e, &ok), Ok(TestClass::Unknown)));
    let broken = group(vec![xml(THREAD_GROUP), group(vec![xml(STRING_PROP)])]);
    assert!(matches!(
        TestClass::parse(&e, &broken),
        Err(DecodeError::MalformedTree)
    ));
}

#[test]
fn whole_document_decodes_in_order() {
    let doc = xml(&full_document());
    let root = TestClass::root(&doc).unwrap();
    let subs = match root {
        TestClass::TestPlan(p, subs) => {
            assert_eq!(p.test_name, "Test Plan");
            subs
        }
        other => panic!("unexpected root {:?}", other),
    };
    assert_eq!(subs.len(), 1);
    match &subs[0] {
        TestClass::ThreadGroup(g, inner) => {
            assert_eq!(g.num_threads, 10);
            assert_eq!(inner.len(), 2);
            match &inner[0] {
                TestClass::HeaderManager(h, below) => {
                    assert_eq!(h.headers.get("accept-encoding"), Some(String::from("gzip")));
                    assert!(below.is_empty());
                }
                other => panic!("unexpected node {:?}", other),
            }
            assert!(matches!(inner[1], TestClass::Unknown));
        }
        other => panic!("unexpected node {:?}", other),
    }
}

#[test]
fn decoding_twice_gives_equal_trees() {
    let doc = xml(&full_document());
    let first = format!("{:?}", TestClass::root(&doc));
    let second = format!("{:?}", TestClass::root(&doc));
    assert_eq!(first, second);
}

#[test]
fn root_with_two_children_is_malformed() {
    let doc = xml(&format!(
        "<jmeterTestPlan><hashTree>{}<hashTree/></hashTree><hashTree/></jmeterTestPlan>",
        TEST_PLAN
    ));
    assert!(matches!(
        TestClass::root(&doc),
        Err(DecodeError::MalformedTree)
    ));
}

#[test]
fn wrong_property_tag_is_unexpected() {
    assert_eq!(
        BoolProp::parse(&xml(STRING_PROP)),
        Err(DecodeError::UnexpectedTag(String::from("boolProp")))
    );
}

#[test]
fn property_without_name_is_missing_attribute() {
    assert_eq!(
        StringProp::parse(&xml("<stringProp>x</stringProp>")),
        Err(DecodeError::MissingAttribute(String::from("name")))
    );
}

#[test]
fn empty_string_property_is_empty() {
    assert_eq!(
        StringProp::parse(&xml(r#"<stringProp name="TestPlan.comments"/>"#)),
        Ok(StringProp {
            name: String::from("TestPlan.comments"),
            value: String::new()
        })
    );
}

#[test]
fn bool_property_without_text_is_type_mismatch() {
    assert_eq!(
        BoolProp::parse(&xml(r#"<boolProp name="b"/>"#)),
        Err(DecodeError::TypeMismatch(String::from("b")))
    );
    assert_eq!(
        BoolProp::parse(&xml(r#"<boolProp name="b">yes</boolProp>"#)),
        Err(DecodeError::TypeMismatch(String::from("b")))
    );
}

#[test]
fn integer_properties_decode() {
    assert_eq!(
        IntProp::parse(&xml(r#"<intProp name="LoopController.loops">-1</intProp>"#)),
        Ok(IntProp {
            name: String::from("LoopController.loops"),
            value: -1
        })
    );
    assert_eq!(
        LongProp::parse(&xml(r#"<longProp name="ThreadGroup.start_time">1617183347000</longProp>"#)),
        Ok(LongProp {
            name: String::from("ThreadGroup.start_time"),
            value: 1617183347000
        })
    );
    assert_eq!(
        IntProp::parse(&xml(r#"<intProp name="n">1617183347000</intProp>"#)),
        Err(DecodeError::TypeMismatch(String::from("n")))
    );
}

#[test]
fn number_texts_read() {
    assert_eq!(read_i32("42"), Some(42));
    assert_eq!(read_i32("+7"), Some(7));
    assert_eq!(read_i32("-2147483648"), Some(i32::MIN));
    assert_eq!(read_i32("2147483648"), None);
    assert_eq!(read_i32(" 1"), None);
    assert_eq!(read_i32("-"), None);
    assert_eq!(read_i32(""), None);
    assert_eq!(read_i64("-9000000000"), Some(-9000000000));
    assert_eq!(read_bool("true"), Some(true));
    assert_eq!(read_bool("false"), Some(false));
    assert_eq!(read_bool("True"), None);
}

#[test]
fn header_with_three_children_is_arity_mismatch() {
    let mut e = xml(ELEMENT_HEADER);
    e.children.push(XmlNode::Element(xml(STRING_PROP)));
    let expected = DecodeError::ArityMismatch(String::from("Header"));
    assert_eq!(ElementHeader::parse(&e), Err(expected));
    assert_eq!(
        CompositeProp::parse(&e),
        Err(DecodeError::ArityMismatch(String::from("Header")))
    );
}

#[test]
fn argument_with_two_children_is_arity_mismatch() {
    let mut e = xml(ELEMENT_ARGUMENT);
    e.children.pop();
    assert_eq!(
        ElementArgument::parse(&e),
        Err(DecodeError::ArityMismatch(String::from("Argument")))
    );
}

#[test]
fn unknown_discriminator_is_unknown_variant() {
    let e = xml(r#"<elementProp name="x" elementType="Cookie"><stringProp name="a">b</stringProp></elementProp>"#);
    let cookie = || DecodeError::UnknownVariant(String::from("Cookie"));
    assert_eq!(CompositeProp::parse(&e), Err(cookie()));
    assert_eq!(ElementHeader::parse(&e), Err(cookie()));
    assert_eq!(ElementProp::parse(&e), Err(cookie()));
    let arguments = xml(r#"<elementProp name="x" elementType="Arguments"/>"#);
    assert_eq!(
        CompositeProp::parse(&arguments),
        Err(DecodeError::UnknownVariant(String::from("Arguments")))
    );
    assert_eq!(
        ElementLoopController::parse(&arguments),
        Err(DecodeError::UnknownVariant(String::from("Arguments")))
    );
}

#[test]
fn header_without_value_is_missing_child() {
    let e = xml(r#"<elementProp name="" elementType="Header"><stringProp name="Header.name">a</stringProp><stringProp name="Header.other">b</stringProp></elementProp>"#);
    assert_eq!(
        ElementHeader::parse(&e),
        Err(DecodeError::MissingChild(String::from("Header.value")))
    );
}

#[test]
fn composite_dispatches_on_discriminator() {
    assert_eq!(
        CompositeProp::parse(&xml(ELEMENT_LOOP_CONTROLLER)),
        Ok(CompositeProp::LoopController(ElementLoopController { loops: 1 }))
    );
    assert_eq!(
        CompositeProp::parse(&xml(ELEMENT_HEADER)),
        Ok(CompositeProp::Header(ElementHeader {
            name: String::from("header name"),
            value: String::from("header value")
        }))
    );
}

#[test]
fn header_manager_without_enabled_is_missing_attribute() {
    let text = HEADER_MANAGER.replace(r#" enabled="true""#, "");
    assert!(matches!(
        HeaderManager::parse(&xml(&text)),
        Err(DecodeError::MissingAttribute(ref a)) if a == "enabled"
    ));
}

#[test]
fn test_plan_without_arguments_is_missing_child() {
    let text = TEST_PLAN.replace(r#"elementType="Arguments""#, r#"elementType="Other""#);
    assert!(matches!(
        TestPlan::parse(&xml(&text)),
        Err(DecodeError::MissingChild(ref c)) if c == "Arguments"
    ));
}

#[test]
fn property_values_round_trip_to_text() {
    let b = BoolProp::parse(&xml(r#"<boolProp name="b">false</boolProp>"#)).unwrap();
    assert_eq!(b.value.to_string(), "false");
    let i = IntProp::parse(&xml(r#"<intProp name="i">+0042</intProp>"#)).unwrap();
    assert_eq!(i.value, 42);
    assert_eq!(read_i32(&i.value.to_string()), Some(42));
    let l = LongProp::parse(&xml(r#"<longProp name="l">-7</longProp>"#)).unwrap();
    assert_eq!(read_i64(&l.value.to_string()), Some(-7));
    let s = StringProp::parse(&xml(r#"<stringProp name="s">a b</stringProp>"#)).unwrap();
    assert_eq!(s.value, "a b");
}
