//! Query models kept in Elasticsearch or MongoDB.
//!
//! A query model names itself with an identifier (under which its tracking
//! token is stored) and holds the handle through which it reaches its store.
use vstd::prelude::*;

verus! {

#[verifier::external_type_specification]
#[verifier::external_body]
pub struct ExElasticsearch(elasticsearch::Elasticsearch);

#[verifier::external_type_specification]
#[verifier::external_body]
pub struct ExMongoClient(mongodb::Client);

#[verifier::external_type_specification]
#[verifier::external_body]
pub struct ExMongoDatabase(mongodb::Database);

#[verifier::external_type_specification]
#[verifier::external_body]
#[verifier::reject_recursive_types(T)]
pub struct ExMongoCollection<T>(mongodb::Collection<T>);

#[verifier::external_type_specification]
#[verifier::external_body]
pub struct ExBsonDocument(mongodb::bson::Document);

/// Cloning an Elasticsearch client (`Clone` for `elasticsearch::Elasticsearch`);
/// the clone shares the client's transport.  Nothing is stated of it.
pub assume_specification[ <elasticsearch::Elasticsearch as Clone>::clone ](
    client: &elasticsearch::Elasticsearch,
) -> elasticsearch::Elasticsearch;

/// The name that a MongoDB database handle reports (`mongodb::Database::name`):
/// the name that the handle was made with, kept behind the handle's shared state.
pub uninterp spec fn database_name_of(database: mongodb::Database) -> Seq<char>;

/// The name that a MongoDB collection handle reports (`mongodb::Collection::name`).
pub uninterp spec fn collection_name_of(
    collection: mongodb::Collection<mongodb::bson::Document>,
) -> Seq<char>;

/// The database part of the namespace of a MongoDB collection handle
/// (`mongodb::Collection::namespace`, its field `db`): the name of the database
/// handle that the collection was made from.
pub uninterp spec fn collection_database_name_of(
    collection: mongodb::Collection<mongodb::bson::Document>,
) -> Seq<char>;

/// Cloning a MongoDB database handle (`Clone` for `mongodb::Database`): the
/// clone shares the handle's state, so it reports the same name.
pub assume_specification[ <mongodb::Database as Clone>::clone ](
    database: &mongodb::Database,
) -> (r: mongodb::Database)
    ensures
        database_name_of(r) == database_name_of(*database),
;

/// Cloning a MongoDB collection handle (`Clone` for `mongodb::Collection`);
/// nothing is stated of the clone.
pub assume_specification<T>[ <mongodb::Collection<T> as Clone>::clone ](
    collection: &mongodb::Collection<T>,
) -> mongodb::Collection<T>;

/// The handle of the named database of a MongoDB client
/// (`mongodb::Client::database`): the handle reports the name it was given.
#[verifier::external_body]
fn database_of(client: &mongodb::Client, name: &str) -> (r: mongodb::Database)
    ensures
        database_name_of(r) == name@,
{
    client.database(name)
}

/// The handle of the named collection of documents in a MongoDB database
/// (`mongodb::Database::collection`): the handle reports the name it was given,
/// and its namespace names the database it was made from.
#[verifier::external_body]
fn collection_of(database: &mongodb::Database, name: &str) -> (r: mongodb::Collection<
    mongodb::bson::Document,
>)
    ensures
        collection_name_of(r) == name@,
        collection_database_name_of(r) == database_name_of(*database),
{
    database.collection(name)
}

/// A query model kept in Elasticsearch.
#[derive(Clone)]
pub struct ElasticQueryModel {
    es_client: elasticsearch::Elasticsearch,
    identifier: String,
}

impl ElasticQueryModel {
    pub closed spec fn spec_client(self) -> elasticsearch::Elasticsearch {
        self.es_client
    }

    pub closed spec fn spec_identifier(self) -> Seq<char> {
        self.identifier@
    }

    /// The Elasticsearch client.
    pub fn get_client(&self) -> (r: &elasticsearch::Elasticsearch)
        ensures
            *r == self.spec_client(),
    {
        &self.es_client
    }

    /// The identifier of the query model.
    pub fn get_identifier(&self) -> (r: &str)
        ensures
            r@ == self.spec_identifier(),
    {
        self.identifier.as_str()
    }
}

/// A query model with the given client and identifier.
pub fn create_elastic_query_model(es_client: elasticsearch::Elasticsearch, identifier: String) -> (r:
    ElasticQueryModel)
    ensures
        r.spec_client() == es_client,
        r.spec_identifier() == identifier@,
{
    ElasticQueryModel { es_client, identifier }
}

/// A query model kept in a MongoDB database.
#[derive(Clone)]
pub struct MongoQueryModel {
    identifier: String,
    database: mongodb::Database,
}

impl MongoQueryModel {
    pub closed spec fn spec_identifier(self) -> Seq<char> {
        self.identifier@
    }

    pub closed spec fn spec_database(self) -> mongodb::Database {
        self.database
    }

    /// The name of the database.
    pub closed spec fn spec_database_name(self) -> Seq<char> {
        database_name_of(self.database)
    }

    /// The database.
    pub fn get_database(&self) -> (r: &mongodb::Database)
        ensures
            *r == self.spec_database(),
            database_name_of(*r) == self.spec_database_name(),
    {
        &self.database
    }

    /// The identifier of the query model.
    pub fn get_identifier(&self) -> (r: &str)
        ensures
            r@ == self.spec_identifier(),
    {
        self.identifier.as_str()
    }
}

/// A query model with the given identifier, kept in the named database of
/// the client.
pub fn create_mongodb_query_model(identifier: String, mongo_client: mongodb::Client, database_name: &str) -> (r:
    MongoQueryModel)
    ensures
        r.spec_identifier() == identifier@,
        r.spec_database_name() == database_name@,
{
    let database = database_of(&mongo_client, database_name);
    MongoQueryModel { identifier, database }
}

/// A query model kept in one collection of a MongoDB database.
#[derive(Clone)]
pub struct MongoCollectionQueryModel {
    mongo_query_model: MongoQueryModel,
    collection: mongodb::Collection<mongodb::bson::Document>,
}

impl MongoCollectionQueryModel {
    pub closed spec fn spec_identifier(self) -> Seq<char> {
        self.mongo_query_model.spec_identifier()
    }

    pub closed spec fn spec_database(self) -> mongodb::Database {
        self.mongo_query_model.spec_database()
    }

    pub closed spec fn spec_collection(self) -> mongodb::Collection<mongodb::bson::Document> {
        self.collection
    }

    /// The name of the database.
    pub closed spec fn spec_database_name(self) -> Seq<char> {
        self.mongo_query_model.spec_database_name()
    }

    /// The name of the collection.
    pub closed spec fn spec_collection_name(self) -> Seq<char> {
        collection_name_of(self.collection)
    }

    /// The name of the database that the collection lies in.
    pub closed spec fn spec_collection_database_name(self) -> Seq<char> {
        collection_database_name_of(self.collection)
    }

    /// The database.
    pub fn get_database(&self) -> (r: &mongodb::Database)
        ensures
            *r == self.spec_database(),
            database_name_of(*r) == self.spec_database_name(),
    {
        self.mongo_query_model.get_database()
    }

    /// The identifier of the query model.
    pub fn get_identifier(&self) -> (r: &str)
        ensures
            r@ == self.spec_identifier(),
    {
        self.mongo_query_model.get_identifier()
    }

    /// The collection.
    pub fn get_collection(&self) -> (r: &mongodb::Collection<mongodb::bson::Document>)
        ensures
            *r == self.spec_collection(),
            collection_name_of(*r) == self.spec_collection_name(),
            collection_database_name_of(*r) == self.spec_collection_database_name(),
    {
        &self.collection
    }
}

/// A query model with the given identifier, kept in the named collection of
/// the named database of the client.
pub fn create_mongodb_collection_query_model(
    identifier: String,
    mongo_client: mongodb::Client,
    database_name: &str,
    collection_name: &str,
) -> (r: MongoCollectionQueryModel)
    ensures
        r.spec_identifier() == identifier@,
        r.spec_database_name() == database_name@,
        r.spec_collection_name() == collection_name@,
        r.spec_collection_database_name() == database_name@,
{
    let database = database_of(&mongo_client, database_name);
    let collection = collection_of(&database, collection_name);
    let mongo_query_model = MongoQueryModel { database, identifier };
    MongoCollectionQueryModel { mongo_query_model, collection }
}

} // verus!
