//! The storage service: where encrypted data and audit logs are kept.
//!
//! The service is a stand-in for an object store and a table store: it
//! answers as they would for a request that went well, and keeps nothing.

use vstd::prelude::*;
use vstd::string::StringExecFns;
use crate::error::DreasError;
use crate::metadata::Metadata;
use crate::text::{decimal, decimal_text};
use crate::time::{current_time, Timestamp};
use crate::unique_id::{fresh_id, id_text};

verus! {

/// What a storage operation did.
#[derive(Clone, Copy, Debug, PartialEq, Eq, Structural)]
pub enum StorageOperation {
    Create,
    Read,
    Update,
    Delete,
    List,
}

/// The receipt of a storage operation.
#[derive(Debug)]
pub struct StorageResult {
    pub operation_id: u128,
    pub resource_id: String,
    pub operation_type: StorageOperation,
    pub success: bool,
    pub timestamp: Timestamp,
    pub metadata: Metadata,
}

/// What the store knows of one item.
#[derive(Debug)]
pub struct StorageItem {
    pub id: String,
    pub name: String,
    pub content_type: String,
    pub size: u64,
    pub created_at: Timestamp,
    pub modified_at: Timestamp,
    pub metadata: Metadata,
    pub encrypted: bool,
}

/// One row of the audit log table.
#[derive(Debug)]
pub struct AuditLogRecord {
    pub timestamp: Timestamp,
    pub action: String,
    pub user_id: String,
    pub result: String,
}

/// A snapshot of the service for health checks.
#[derive(Debug)]
pub struct StorageStats {
    pub service_id: u128,
    pub gcs_bucket: String,
    pub bigquery_dataset: String,
    pub encryption_enabled: bool,
    pub created_at: Timestamp,
}

/// The address of the object `name` in `bucket`.
pub open spec fn object_address(bucket: Seq<char>, name: Seq<char>) -> Seq<char> {
    "gs://"@ + bucket + "/"@ + name
}

/// The name of the audit log table in `dataset`.
pub open spec fn audit_table(dataset: Seq<char>) -> Seq<char> {
    dataset + ".audit_logs"@
}

/// The annotations on the receipt of a store: the caller's own, then the
/// bucket, the content type and the size, and the encryption mark where
/// encryption is on.
pub open spec fn store_annotations(
    given: Map<Seq<char>, Seq<char>>,
    bucket: Seq<char>,
    content_type: Seq<char>,
    size: nat,
    encrypted: bool,
) -> Map<Seq<char>, Seq<char>> {
    let base = given.insert("bucket"@, bucket).insert("content_type"@, content_type).insert(
        "size"@,
        decimal_text(size),
    );
    if encrypted {
        base.insert("encrypted"@, "true"@)
    } else {
        base
    }
}

/// The annotations on the receipt of stored audit logs.
pub open spec fn audit_log_annotations(dataset: Seq<char>, records: nat) -> Map<
    Seq<char>,
    Seq<char>,
> {
    Map::<Seq<char>, Seq<char>>::empty().insert("dataset"@, dataset).insert(
        "table"@,
        audit_table(dataset),
    ).insert("record_count"@, decimal_text(records))
}

/// The caller's annotations, or none.
pub open spec fn given_annotations(metadata: Option<Metadata>) -> Map<Seq<char>, Seq<char>> {
    match metadata {
        Some(m) => m@,
        None => Map::empty(),
    }
}

/// The storage service for one bucket and one dataset.
#[derive(Debug)]
pub struct StorageService {
    service_id: u128,
    gcs_bucket: String,
    bigquery_dataset: String,
    encryption_enabled: bool,
}

impl StorageService {
    /// The identity of the service.
    pub closed spec fn service_id(&self) -> u128 {
        self.service_id
    }

    /// The bucket that holds the objects.
    pub closed spec fn bucket(&self) -> Seq<char> {
        self.gcs_bucket@
    }

    /// The dataset that holds the audit log table.
    pub closed spec fn dataset(&self) -> Seq<char> {
        self.bigquery_dataset@
    }

    /// Whether stored data is marked as encrypted.
    pub closed spec fn encrypts(&self) -> bool {
        self.encryption_enabled
    }

    /// A service for the bucket and the dataset, with encryption on.
    pub fn new(gcs_bucket: String, bigquery_dataset: String) -> (service: Self)
        ensures
            service.bucket() == gcs_bucket@,
            service.dataset() == bigquery_dataset@,
            service.encrypts(),
    {
        StorageService {
            service_id: fresh_id(),
            gcs_bucket,
            bigquery_dataset,
            encryption_enabled: true,
        }
    }

    /// The address of the object `name`.
    fn address(&self, name: &String) -> (address: String)
        ensures
            address@ == object_address(self.bucket(), name@),
    {
        let mut address = String::from_str("gs://");
        address.append(self.gcs_bucket.as_str());
        address.append("/");
        address.append(name.as_str());
        address
    }

    /// Stores `data` as the object `name` and returns the receipt.
    pub fn store_data(
        &self,
        name: String,
        data: Vec<u8>,
        content_type: String,
        metadata: Option<Metadata>,
    ) -> (r: Result<StorageResult, DreasError>)
        ensures
            r is Ok,
            r->Ok_0.resource_id@ == object_address(self.bucket(), name@),
            r->Ok_0.operation_type == StorageOperation::Create,
            r->Ok_0.success,
            r->Ok_0.metadata@ == store_annotations(
                given_annotations(metadata),
                self.bucket(),
                content_type@,
                data@.len(),
                self.encrypts(),
            ),
    {
        let operation_id = fresh_id();
        let resource_id = self.address(&name);
        let mut result_metadata = match metadata {
            Some(m) => m,
            None => Metadata::new(),
        };
        result_metadata.insert("bucket".to_string(), self.gcs_bucket.clone());
        result_metadata.insert("content_type".to_string(), content_type);
        result_metadata.insert("size".to_string(), decimal(data.len()));
        if self.encryption_enabled {
            result_metadata.insert("encrypted".to_string(), "true".to_string());
        }
        Ok(
            StorageResult {
                operation_id,
                resource_id,
                operation_type: StorageOperation::Create,
                success: true,
                timestamp: current_time(),
                metadata: result_metadata,
            },
        )
    }

    /// Reads the object `name`. The stand-in answers every name with the
    /// same fourteen bytes, the text "retrieved data".
    pub fn retrieve_data(&self, name: String) -> (r: Result<Vec<u8>, DreasError>)
        ensures
            r is Ok,
            r->Ok_0@ == seq![
                114u8,
                101u8,
                116u8,
                114u8,
                105u8,
                101u8,
                118u8,
                101u8,
                100u8,
                32u8,
                100u8,
                97u8,
                116u8,
                97u8,
            ],
    {
        let data: Vec<u8> = vec![
            114u8,
            101u8,
            116u8,
            114u8,
            105u8,
            101u8,
            118u8,
            101u8,
            100u8,
            32u8,
            100u8,
            97u8,
            116u8,
            97u8,
        ];
        Ok(data)
    }

    /// Deletes the object `name` and returns the receipt.
    pub fn delete_data(&self, name: String) -> (r: Result<StorageResult, DreasError>)
        ensures
            r is Ok,
            r->Ok_0.resource_id@ == object_address(self.bucket(), name@),
            r->Ok_0.operation_type == StorageOperation::Delete,
            r->Ok_0.success,
            r->Ok_0.metadata@ == Map::<Seq<char>, Seq<char>>::empty(),
    {
        let operation_id = fresh_id();
        let resource_id = self.address(&name);
        Ok(
            StorageResult {
                operation_id,
                resource_id,
                operation_type: StorageOperation::Delete,
                success: true,
                timestamp: current_time(),
                metadata: Metadata::new(),
            },
        )
    }

    /// One of the two items that the stand-in lists.
    fn example_item(&self, name: &str, content_type: &str, size: u64) -> (item: StorageItem)
        ensures
            item.name@ == name@,
            item.content_type@ == content_type@,
            item.size == size,
            item.metadata@ == Map::<Seq<char>, Seq<char>>::empty(),
            item.encrypted == self.encrypts(),
    {
        StorageItem {
            id: id_text(fresh_id()),
            name: name.to_string(),
            content_type: content_type.to_string(),
            size,
            created_at: current_time(),
            modified_at: current_time(),
            metadata: Metadata::new(),
            encrypted: self.encryption_enabled,
        }
    }

    /// Lists the stored items. The stand-in lists the same two items
    /// whatever the prefix.
    pub fn list_items(&self, prefix: Option<String>) -> (r: Result<Vec<StorageItem>, DreasError>)
        ensures
            r is Ok,
            r->Ok_0@.len() == 2,
            r->Ok_0@[0].name@ == "example-item-1"@,
            r->Ok_0@[0].content_type@ == "application/json"@,
            r->Ok_0@[0].size == 1024,
            r->Ok_0@[0].encrypted == self.encrypts(),
            r->Ok_0@[0].metadata@ == Map::<Seq<char>, Seq<char>>::empty(),
            r->Ok_0@[1].name@ == "example-item-2"@,
            r->Ok_0@[1].content_type@ == "text/plain"@,
            r->Ok_0@[1].size == 512,
            r->Ok_0@[1].encrypted == self.encrypts(),
            r->Ok_0@[1].metadata@ == Map::<Seq<char>, Seq<char>>::empty(),
    {
        let mut items: Vec<StorageItem> = Vec::new();
        items.push(self.example_item("example-item-1", "application/json", 1024));
        items.push(self.example_item("example-item-2", "text/plain", 512));
        Ok(items)
    }

    /// Stores rows in the audit log table and returns the receipt, which
    /// counts them.
    pub fn store_audit_logs(&self, logs: Vec<AuditLogRecord>) -> (r: Result<
        StorageResult,
        DreasError,
    >)
        ensures
            r is Ok,
            r->Ok_0.resource_id@ == audit_table(self.dataset()),
            r->Ok_0.operation_type == StorageOperation::Create,
            r->Ok_0.success,
            r->Ok_0.metadata@ == audit_log_annotations(self.dataset(), logs@.len()),
    {
        let operation_id = fresh_id();
        let mut table_name = self.bigquery_dataset.clone();
        table_name.append(".audit_logs");
        let mut metadata = Metadata::new();
        metadata.insert("dataset".to_string(), self.bigquery_dataset.clone());
        metadata.insert("table".to_string(), table_name.clone());
        metadata.insert("record_count".to_string(), decimal(logs.len()));
        Ok(
            StorageResult {
                operation_id,
                resource_id: table_name,
                operation_type: StorageOperation::Create,
                success: true,
                timestamp: current_time(),
                metadata,
            },
        )
    }

    /// Queries the audit log table. The stand-in answers every query with
    /// one example row.
    pub fn query_audit_logs(&self, query: String) -> (r: Result<Vec<AuditLogRecord>, DreasError>)
        ensures
            r is Ok,
            r->Ok_0@.len() == 1,
            r->Ok_0@[0].action@ == "example_action"@,
            r->Ok_0@[0].user_id@ == "example_user"@,
            r->Ok_0@[0].result@ == "success"@,
    {
        let mut rows: Vec<AuditLogRecord> = Vec::new();
        rows.push(
            AuditLogRecord {
                timestamp: current_time(),
                action: "example_action".to_string(),
                user_id: "example_user".to_string(),
                result: "success".to_string(),
            },
        );
        Ok(rows)
    }

    /// Turns the encryption mark on or off for the calls that follow.
    pub fn set_encryption(&mut self, enabled: bool)
        ensures
            final(self).encrypts() == enabled,
            final(self).bucket() == old(self).bucket(),
            final(self).dataset() == old(self).dataset(),
            final(self).service_id() == old(self).service_id(),
    {
        self.encryption_enabled = enabled;
    }

    /// A snapshot of the service, stamped with the current time.
    pub fn get_stats(&self) -> (stats: StorageStats)
        ensures
            stats.service_id == self.service_id(),
            stats.gcs_bucket@ == self.bucket(),
            stats.bigquery_dataset@ == self.dataset(),
            stats.encryption_enabled == self.encrypts(),
    {
        StorageStats {
            service_id: self.service_id,
            gcs_bucket: self.gcs_bucket.clone(),
            bigquery_dataset: self.bigquery_dataset.clone(),
            encryption_enabled: self.encryption_enabled,
            created_at: current_time(),
        }
    }

    /// Probes the stores. The stand-in always reports them reachable.
    pub fn test_connectivity(&self) -> (r: Result<(), DreasError>)
        ensures
            r is Ok,
    {
        Ok(())
    }
}

} // verus!
