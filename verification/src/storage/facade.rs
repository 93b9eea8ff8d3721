//! The decisions of the storage facade: when a token is renewed and a request retried,
//! what a block must carry to be read or deleted, and what an account records after
//! authorization and quota reads.
use vstd::prelude::*;
use crate::error::ErrorInfo;
use crate::meta::{CloudType, MetaStatus};
use crate::storage::Quota;
use crate::tables::{CloudFileBlock, CloudMeta};
use crate::text::{parse_i32, parse_i32_spec};

verus! {

/// A request refused for an expired token (401) is retried once after renewing the token.
pub fn needs_token_refresh(e: &ErrorInfo) -> (b: bool)
    ensures
        b == (*e is Http401),
{
    match e {
        ErrorInfo::Http401 => true,
        _ => false,
    }
}

/// Where a request that may be retried after renewing the token stands.
#[derive(PartialEq, Eq, Structural, Clone, Copy, Debug)]
pub enum RetryPhase {
    /// The first attempt is under way.
    FirstTry,
    /// The first attempt met an expired token, which is being renewed.
    Refreshing,
    /// The request is being made again with the renewed token.
    SecondTry,
}

/// What a retried request does next.
#[derive(Debug)]
pub enum RetryStep<T> {
    /// Renew the account's token.
    Refresh,
    /// Make the request again.
    Retry,
    /// The request ends with this result.
    Done(Result<T, ErrorInfo>),
}

/// A request that is made again, once, after a 401 answer and a renewed token.
pub struct TokenRetry {
    pub phase: RetryPhase,
}

impl TokenRetry {
    /// A request about to be made the first time.
    pub fn new() -> (r: TokenRetry)
        ensures
            r.phase == RetryPhase::FirstTry,
    {
        TokenRetry { phase: RetryPhase::FirstTry }
    }

    /// Takes the result of an attempt: a first attempt refused with 401 renews the token;
    /// any other first result, and every result of the second attempt, is the answer.
    pub fn on_attempt<T>(&mut self, result: Result<T, ErrorInfo>) -> (step: RetryStep<T>)
        requires
            old(self).phase != RetryPhase::Refreshing,
        ensures
            (old(self).phase == RetryPhase::FirstTry && result matches Err(ErrorInfo::Http401)) ==> (step is Refresh
                && final(self).phase == RetryPhase::Refreshing),
            !(old(self).phase == RetryPhase::FirstTry && result matches Err(ErrorInfo::Http401)) ==> (step
                == RetryStep::Done(result) && final(self).phase == old(self).phase),
    {
        if self.phase == RetryPhase::FirstTry {
            if let Err(e) = &result {
                if needs_token_refresh(e) {
                    self.phase = RetryPhase::Refreshing;
                    return RetryStep::Refresh;
                }
            }
        }
        RetryStep::Done(result)
    }

    /// Takes the result of renewing the token: the request is made again, or it ends with
    /// the renewal's error.
    pub fn on_refresh<T, R>(&mut self, result: Result<R, ErrorInfo>) -> (step: RetryStep<T>)
        requires
            old(self).phase == RetryPhase::Refreshing,
        ensures
            result is Ok ==> (step is Retry && final(self).phase == RetryPhase::SecondTry),
            result matches Err(e) ==> (step == RetryStep::<T>::Done(Err(e)) && final(self).phase == old(self).phase),
    {
        match result {
            Ok(_) => {
                self.phase = RetryPhase::SecondTry;
                RetryStep::Retry
            },
            Err(e) => RetryStep::Done(Err(e)),
        }
    }
}

/// The stored file a block copy is deleted by: the copy must know its id in the cloud.
pub fn delete_target(block: &CloudFileBlock) -> (r: Result<String, ErrorInfo>)
    ensures
        block.cloud_file_id matches Some(id) ==> r == Ok::<String, ErrorInfo>(id),
        block.cloud_file_id is None ==> r == Err::<String, ErrorInfo>(ErrorInfo::NoneCloudFileId(block.cloud_meta_id)),
{
    match &block.cloud_file_id {
        Some(id) => Ok(id.clone()),
        None => Err(ErrorInfo::NoneCloudFileId(block.cloud_meta_id)),
    }
}

/// The account and stored file a block copy is read from: the account must exist and the
/// copy must know its id in the cloud.
pub fn content_target(cloud_meta: Option<CloudMeta>, block: &CloudFileBlock) -> (r: Result<(CloudMeta, String), ErrorInfo>)
    ensures
        cloud_meta is None ==> r == Err::<(CloudMeta, String), ErrorInfo>(ErrorInfo::NoneCloudMeta(block.cloud_meta_id)),
        cloud_meta is Some && block.cloud_file_id is None ==> r == Err::<(CloudMeta, String), ErrorInfo>(
            ErrorInfo::NoneCloudFileId(block.cloud_meta_id),
        ),
        cloud_meta is Some && block.cloud_file_id is Some ==> r == Ok::<(CloudMeta, String), ErrorInfo>((cloud_meta->0, block.cloud_file_id->0)),
{
    match cloud_meta {
        None => Err(ErrorInfo::NoneCloudMeta(block.cloud_meta_id)),
        Some(m) => match &block.cloud_file_id {
            None => Err(ErrorInfo::NoneCloudFileId(block.cloud_meta_id)),
            Some(id) => Ok((m, id.clone())),
        },
    }
}

/// The account an authorization callback is for: its `state` is the account id.
pub fn callback_account(state: &str) -> (r: Option<i32>)
    ensures
        r == parse_i32_spec(state@),
{
    parse_i32(state)
}

/// The account after an authorization: the token stored, and waiting for its data root.
pub fn store_authorization(meta: &mut CloudMeta, token: String)
    ensures
        *final(meta) == (CloudMeta {
            auth: Some(token),
            status: MetaStatus::WaitDataRoot.spec_code(),
            ..*old(meta)
        }),
{
    meta.auth = Some(token);
    meta.status = MetaStatus::WaitDataRoot.code();
}

/// The account with a renewed token.
pub fn store_token(meta: &mut CloudMeta, token: String)
    ensures
        *final(meta) == (CloudMeta { auth: Some(token), ..*old(meta) }),
{
    meta.auth = Some(token);
}

/// The account's quota after authorization: what is left is the total less the used space.
pub fn store_initial_quota(meta: &mut CloudMeta, quota: &Quota)
    requires
        quota.used <= quota.total,
    ensures
        *final(meta) == (CloudMeta {
            total_quota: Some(quota.total),
            used_quota: Some(quota.used),
            remaining_quota: Some((quota.total - quota.used) as u64),
            ..*old(meta)
        }),
{
    meta.total_quota = Some(quota.total);
    meta.used_quota = Some(quota.used);
    meta.remaining_quota = Some(quota.total - quota.used);
}

/// The account's quota as the cloud reports it.
pub fn store_quota(meta: &mut CloudMeta, quota: &Quota)
    ensures
        *final(meta) == (CloudMeta {
            total_quota: Some(quota.total),
            used_quota: Some(quota.used),
            remaining_quota: Some(quota.remaining),
            ..*old(meta)
        }),
{
    meta.used_quota = Some(quota.used);
    meta.total_quota = Some(quota.total);
    meta.remaining_quota = Some(quota.remaining);
}

/// The kind of storage of an account, by its stored code.
pub fn cloud_kind(meta: &CloudMeta) -> (r: Option<CloudType>)
    ensures
        match r {
            Some(t) => t.spec_code() == meta.cloud_type,
            None => forall|t: CloudType| t.spec_code() != meta.cloud_type,
        },
{
    CloudType::from_code(meta.cloud_type)
}

/// Whether an account takes part in storing blocks.
pub fn is_enabled(meta: &CloudMeta) -> (b: bool)
    ensures
        b == (meta.status == MetaStatus::Enable.spec_code()),
{
    meta.status == MetaStatus::Enable.code()
}

} // verus!
