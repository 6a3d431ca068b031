use dendrite::query_models::{
    create_elastic_query_model, create_mongodb_collection_query_model, create_mongodb_query_model,
};

#[test]
fn elastic_query_model_keeps_identifier() {
    let client = elasticsearch::Elasticsearch::default();
    let model = create_elastic_query_model(client, "replica".to_string());
    assert_eq!(model.get_identifier(), "replica");
    let _ = model.get_client();
    let copy = model.clone();
    assert_eq!(copy.get_identifier(), "replica");
}

#[test]
fn mongodb_query_models_name_database_and_collection() {
    let runtime = tokio::runtime::Runtime::new().unwrap();
    runtime.block_on(async {
        let options = mongodb::options::ClientOptions::builder()
            .hosts(vec![mongodb::options::ServerAddress::Tcp { host: "localhost".to_string(), port: Some(27017) }])
            .build();
        let client = mongodb::Client::with_options(options).unwrap();
        let model = create_mongodb_query_model("greetings".to_string(), client.clone(), "grok");
        assert_eq!(model.get_identifier(), "greetings");
        assert_eq!(model.get_database().name(), "grok");
        let c = create_mongodb_collection_query_model("g2".to_string(), client, "grok", "greeting");
        assert_eq!(c.get_identifier(), "g2");
        assert_eq!(c.get_database().name(), "grok");
        assert_eq!(c.get_collection().name(), "greeting");
        assert_eq!(c.get_collection().namespace().db, "grok");
        let copy = model.clone();
        assert_eq!(copy.get_database().name(), "grok");
    });
}
